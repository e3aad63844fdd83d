//! Random hexadecimal digits and the octets of a locally administered,
//! unicast MAC address.
use vstd::prelude::*;

use crate::text::{push_char, string_views};

verus! {

/// The digits a random hexadecimal digit is drawn from; zero is never drawn.
pub open spec fn hex_digits() -> Seq<char> {
    seq!['1', '2', '3', '4', '5', '6', '7', '8', '9', 'A', 'B', 'C', 'D', 'E', 'F']
}

/// The second digits of a first octet that mark the address as locally
/// administered and unicast.
pub open spec fn local_digits() -> Seq<char> {
    seq!['2', '6', 'A', 'E']
}

/// Two digits, each one that a random digit can be.
pub open spec fn is_octet(o: Seq<char>) -> bool {
    &&& o.len() == 2
    &&& hex_digits().contains(o[0])
    &&& hex_digits().contains(o[1])
}

/// Two digits, the second of them locally administered and unicast.
pub open spec fn is_first_octet(o: Seq<char>) -> bool {
    &&& o.len() == 2
    &&& hex_digits().contains(o[0])
    &&& local_digits().contains(o[1])
}

/// A generated address or prefix: one to six octets, the first of which
/// marks it as locally administered and unicast.
pub open spec fn is_mac(m: Seq<Seq<char>>) -> bool {
    &&& 1 <= m.len() <= 6
    &&& is_first_octet(m[0])
    &&& forall|k: int| 1 <= k < m.len() ==> #[trigger] is_octet(m[k])
}

/// The number of octets generated: a whole address in unique mode, else a
/// prefix that leaves `range` octets to assign.
pub open spec fn mac_len(range: usize, unique: bool) -> nat {
    if !unique && 1 <= range <= 3 {
        (6 - range) as nat
    } else {
        6
    }
}

/// The `count` octets that `idx` selects: octet `k` is made of the digits
/// that `idx[2k]` and `idx[2k + 1]` pick, and the second digit of octet zero
/// is a locally administered one.
pub open spec fn mac_of_indices(count: nat, idx: Seq<usize>) -> Seq<Seq<char>> {
    Seq::new(
        count,
        |k: int|
            seq![
                hex_digits()[idx[2 * k] as int],
                if k == 0 {
                    local_digits()[idx[1] as int]
                } else {
                    hex_digits()[idx[2 * k + 1] as int]
                },
            ],
    )
}

/// `idx` selects `count` octets: index one picks among the four locally
/// administered digits, every other index among the fifteen random digits.
pub open spec fn indices_ok(count: nat, idx: Seq<usize>) -> bool {
    &&& idx.len() >= 2 * count
    &&& forall|j: int| 0 <= j < 2 * count ==> #[trigger] idx[j] < (if j == 1 { 4usize } else { 15usize })
}

/// Relies on rand::thread_rng and Rng::gen_range: a value drawn from `0..bound`.
#[verifier::external_body]
fn random_below(bound: usize) -> (r: usize)
    requires
        bound > 0,
    ensures
        r < bound,
{
    rand::Rng::gen_range(&mut rand::thread_rng(), 0..bound)
}

/// The digit at `index` among those a random digit can be.
pub fn hex_digit(index: usize) -> (c: char)
    requires
        index < 15,
    ensures
        c == hex_digits()[index as int],
{
    let hex_values = vec!['1', '2', '3', '4', '5', '6', '7', '8', '9', 'A', 'B', 'C', 'D', 'E', 'F'];
    assert(hex_values@ =~= hex_digits());
    hex_values[index]
}

/// The digit at `index` among the locally administered unicast ones.
pub fn local_digit(index: usize) -> (c: char)
    requires
        index < 4,
    ensures
        c == local_digits()[index as int],
{
    let hex_values = vec!['2', '6', 'A', 'E'];
    assert(hex_values@ =~= local_digits());
    hex_values[index]
}

/// The two-digit string of `hi` followed by `lo`.
fn octet_of(hi: char, lo: char) -> (r: String)
    ensures
        r@ == seq![hi, lo],
{
    let mut r = String::new();
    push_char(&mut r, hi);
    push_char(&mut r, lo);
    assert(r@ =~= seq![hi, lo]);
    r
}

/// A random hexadecimal digit as a one-character string.
pub fn generate_hexadecimal() -> (r: String)
    ensures
        r@.len() == 1,
        hex_digits().contains(r@[0]),
{
    let c = hex_digit(random_below(15));
    let mut r = String::new();
    push_char(&mut r, c);
    r
}

/// An octet of two random digits.
pub fn generate_octet() -> (r: String)
    ensures
        is_octet(r@),
{
    let hi = generate_hexadecimal();
    let lo = generate_hexadecimal();
    let r = hi.concat(lo.as_str());
    assert(r@[0] == hi@[0] && r@[1] == lo@[0]);
    r
}

/// A first octet: a random digit, then a random locally administered digit.
pub fn generate_first_octet() -> (r: String)
    ensures
        is_first_octet(r@),
{
    let lo = local_digit(random_below(4));
    let mut r = generate_hexadecimal();
    push_char(&mut r, lo);
    r
}

/// The number of octets to generate, as `mac_len` states it.
pub fn octet_count(range: usize, unique: bool) -> (n: usize)
    ensures
        n == mac_len(range, unique),
{
    if !unique && 1 <= range && range <= 3 {
        6 - range
    } else {
        6
    }
}

/// The address or prefix that `indices` select, in place of random draws.
pub fn mac_from_indices(range: usize, unique: bool, indices: &Vec<usize>) -> (r: Vec<String>)
    requires
        indices_ok(mac_len(range, unique), indices@),
    ensures
        string_views(r@) == mac_of_indices(mac_len(range, unique), indices@),
        is_mac(string_views(r@)),
{
    let n = octet_count(range, unique);
    let ghost want = mac_of_indices(n as nat, indices@);
    assert(indices@[1] < 4);
    let mut output: Vec<String> = Vec::new();
    output.push(octet_of(hex_digit(indices[0]), local_digit(indices[1])));
    let mut k: usize = 1;
    while k < n
        invariant
            n == mac_len(range, unique),
            1 <= k <= n <= 6,
            indices_ok(n as nat, indices@),
            want == mac_of_indices(n as nat, indices@),
            output@.len() == k,
            string_views(output@) == want.subrange(0, k as int),
        decreases n - k,
    {
        assert(indices@[2 * k as int] < 15 && indices@[2 * k + 1] < 15);
        let ghost before = output@;
        let octet = octet_of(hex_digit(indices[2 * k]), hex_digit(indices[2 * k + 1]));
        assert(octet@ == want[k as int]);
        output.push(octet);
        assert(output@ == before.push(octet));
        k = k + 1;
        assert(string_views(output@) =~= want.subrange(0, k as int)) by {
            assert forall|j: int| 0 <= j < k implies string_views(output@)[j] == want[j] by {
                if j < k - 1 {
                    assert(output@[j] == before[j]);
                    assert(string_views(before)[j] == want.subrange(0, k - 1)[j]);
                } else {
                    assert(output@[j] == octet);
                }
            }
        }
    }
    assert(want.subrange(0, n as int) =~= want);
    assert forall|j: int| 1 <= j < want.len() implies #[trigger] is_octet(want[j]) by {
        assert(indices@[2 * j] < 15 && indices@[2 * j + 1] < 15);
    }
    output
}

/// A random address or prefix: `mac_len(range, unique)` octets, the first
/// of which marks it as locally administered and unicast.
pub fn generate_mac(range: usize, unique: bool) -> (r: Vec<String>)
    ensures
        string_views(r@).len() == mac_len(range, unique),
        !unique && 1 <= range <= 3 ==> r@.len() == 6 - range,
        unique ==> r@.len() == 6,
        is_mac(string_views(r@)),
        local_digits().contains(r@[0]@[1]),
{
    let n = octet_count(range, unique);
    let mut output: Vec<String> = vec![generate_first_octet()];
    while output.len() < n
        invariant
            n == mac_len(range, unique),
            1 <= output@.len() <= n <= 6,
            is_first_octet(output@[0]@),
            forall|k: int| 1 <= k < output@.len() ==> #[trigger] is_octet(output@[k]@),
        decreases n - output@.len(),
    {
        output.push(generate_octet());
    }
    output
}

} // verus!
