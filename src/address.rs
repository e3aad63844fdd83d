//! Showing a generated address, or a prefix with the range of addresses it
//! leaves to assign, as text.
use vstd::prelude::*;
use vstd::arithmetic::power::{pow, lemma_pow_increases};

use crate::hex::{hex_digits, is_mac, local_digits, mac_len};
use crate::text::{
    decimal, lower_char, lower_seq, push_decimal, push_lowercase, push_str, string_views,
    upper_char, upper_seq,
};

verus! {

/// An octet as shown: in lower case where `lower` is set, else as it is.
pub open spec fn cased(o: Seq<char>, lower: bool) -> Seq<char> {
    if lower {
        lower_seq(o)
    } else {
        o
    }
}

/// `parts` in order with `sep` between each two of them, and not before the
/// first or after the last.
pub open spec fn joined(parts: Seq<Seq<char>>, sep: Seq<char>) -> Seq<char>
    decreases parts.len(),
{
    if parts.len() == 0 {
        Seq::empty()
    } else if parts.len() == 1 {
        parts[0]
    } else {
        joined(parts.drop_last(), sep) + sep + parts.last()
    }
}

/// Joining one more part adds the separator and that part.
proof fn lemma_joined_step(parts: Seq<Seq<char>>, sep: Seq<char>, i: int)
    requires
        0 <= i < parts.len(),
    ensures
        joined(parts.subrange(0, i + 1), sep) == if i == 0 {
            parts[0]
        } else {
            joined(parts.subrange(0, i), sep) + sep + parts[i]
        },
{
    let next = parts.subrange(0, i + 1);
    assert(next.drop_last() =~= parts.subrange(0, i));
}

/// The number of addresses a prefix of `len` octets leaves to assign.
pub open spec fn assignable_count(len: nat) -> int {
    pow(256, (6 - len) as nat)
}

/// The lines shown before anything else when no argument was given.
pub open spec fn banner() -> Seq<char> {
    "No arguments were used.  Type pmg -h or pmg --help for more information.\n"@
        + "Generating MAC addresses for default settings: -r 1 -s : -c l\n"@ + "\n"@
}

/// Appends each of `parts` in lower case where `lower` is set, with `sep`
/// between them.
fn push_joined(out: &mut String, parts: &Vec<String>, lower: bool, sep: &str)
    ensures
        final(out)@ == old(out)@ + joined(
            string_views(parts@).map_values(|o: Seq<char>| cased(o, lower)),
            sep@,
        ),
{
    let ghost start = out@;
    let ghost shown = string_views(parts@).map_values(|o: Seq<char>| cased(o, lower));
    let mut i: usize = 0;
    while i < parts.len()
        invariant
            i <= parts@.len(),
            shown == string_views(parts@).map_values(|o: Seq<char>| cased(o, lower)),
            out@ == start + joined(shown.subrange(0, i as int), sep@),
        decreases parts@.len() - i,
    {
        proof {
            lemma_joined_step(shown, sep@, i as int);
        }
        if i > 0 {
            push_str(out, sep);
        }
        if lower {
            push_lowercase(out, parts[i].as_str());
        } else {
            push_str(out, parts[i].as_str());
        }
        assert(shown[i as int] == cased(parts@[i as int]@, lower));
        assert(out@ =~= start + joined(shown.subrange(0, i + 1), sep@));
        i = i + 1;
    }
    assert(shown.subrange(0, parts@.len() as int) =~= shown);
}

/// Appends `count` copies of `octet` with `sep` between them.
fn push_repeated(out: &mut String, count: usize, octet: &str, sep: &str)
    ensures
        final(out)@ == old(out)@ + joined(Seq::new(count as nat, |k: int| octet@), sep@),
{
    let ghost start = out@;
    let ghost parts = Seq::new(count as nat, |k: int| octet@);
    let mut i: usize = 0;
    while i < count
        invariant
            i <= count,
            parts == Seq::new(count as nat, |k: int| octet@),
            out@ == start + joined(parts.subrange(0, i as int), sep@),
        decreases count - i,
    {
        proof {
            lemma_joined_step(parts, sep@, i as int);
        }
        if i > 0 {
            push_str(out, sep);
        }
        push_str(out, octet);
        assert(out@ =~= start + joined(parts.subrange(0, i + 1), sep@));
        i = i + 1;
    }
    assert(parts.subrange(0, count as int) =~= parts);
}

/// The octets shown in the case chosen and joined by `sep`.
pub open spec fn octets_line(mac: Seq<Seq<char>>, lower: bool, sep: Seq<char>) -> Seq<char> {
    joined(mac.map_values(|o: Seq<char>| cased(o, lower)), sep)
}

/// The octet shown for each assignable octet at the low end (`00`) or the
/// high end (`FF`, in the case chosen) of the range.
pub open spec fn bound_octet(is_beginning: bool, lower: bool) -> Seq<char> {
    if is_beginning {
        "00"@
    } else if lower {
        "ff"@
    } else {
        "FF"@
    }
}

/// The lowest or highest address of a prefix's range: the prefix, the
/// separator, then the bound octet once for each octet left to assign.
pub open spec fn range_end(mac: Seq<Seq<char>>, lower: bool, sep: Seq<char>, is_beginning: bool) -> Seq<char> {
    octets_line(mac, lower, sep) + sep + joined(
        Seq::new((6 - mac.len()) as nat, |k: int| bound_octet(is_beginning, lower)),
        sep,
    )
}

/// The whole report: the banner when the command line held nothing but the
/// program's path, then the address; or, for a prefix, the prefix, how many
/// addresses it leaves to assign and the range they span.
pub open spec fn report_text(mac: Seq<Seq<char>>, arg_count: nat, lower: bool, sep: Seq<char>) -> Seq<char> {
    let intro = if arg_count == 1 {
        banner()
    } else {
        Seq::empty()
    };
    if mac.len() < 6 {
        intro + "Private MAC Prefix:    "@ + octets_line(mac, lower, sep) + "\n"@
            + "Assignable Addresses:  "@ + decimal(assignable_count(mac.len()) as nat) + "\n"@
            + "Assigned Addresses:    "@ + range_end(mac, lower, sep, true) + " - "@
            + range_end(mac, lower, sep, false)
    } else {
        intro + "Private MAC Address:   "@ + octets_line(mac, lower, sep)
    }
}

/// A prefix generated for a range of one, two or three octets leaves
/// 256 to the power of that range addresses to assign.
pub proof fn lemma_prefix_count(range: usize)
    requires
        1 <= range <= 3,
    ensures
        mac_len(range, false) == 6 - range,
        assignable_count(mac_len(range, false)) == pow(256, range as nat),
{
    assert((6 - mac_len(range, false)) as nat == range as nat);
}

/// Upper-casing a character shown in lower case gives it back, unless it
/// was a lower-case letter to begin with.
proof fn lemma_upper_lower_char(c: char)
    requires
        !('a' <= c && c <= 'z'),
    ensures
        upper_char(lower_char(c)) == c,
{
}

/// Upper-casing a joined text upper-cases each part and the separator.
proof fn lemma_upper_joined(parts: Seq<Seq<char>>, sep: Seq<char>)
    ensures
        upper_seq(joined(parts, sep)) == joined(parts.map_values(|p: Seq<char>| upper_seq(p)), upper_seq(sep)),
    decreases parts.len(),
{
    let ups = parts.map_values(|p: Seq<char>| upper_seq(p));
    if parts.len() > 1 {
        lemma_upper_joined(parts.drop_last(), sep);
        assert(parts.drop_last().map_values(|p: Seq<char>| upper_seq(p)) =~= ups.drop_last());
        let a = joined(parts.drop_last(), sep);
        assert(upper_seq(a + sep + parts.last()) =~= upper_seq(a) + upper_seq(sep) + upper_seq(parts.last()));
    }
}

/// The octets of a generated address or prefix are digits and upper-case
/// letters only.
proof fn lemma_mac_has_no_lower(mac: Seq<Seq<char>>, k: int, i: int)
    requires
        is_mac(mac),
        0 <= k < mac.len(),
        0 <= i < mac[k].len(),
    ensures
        !('a' <= mac[k][i] && mac[k][i] <= 'z'),
{
    let c = mac[k][i];
    if k > 0 {
        assert(crate::hex::is_octet(mac[k]));
    }
    if hex_digits().contains(c) {
        let j = choose|j: int| 0 <= j < hex_digits().len() && hex_digits()[j] == c;
        assert(!('a' <= hex_digits()[j] && hex_digits()[j] <= 'z'));
    } else {
        assert(local_digits().contains(c));
        let j = choose|j: int| 0 <= j < local_digits().len() && local_digits()[j] == c;
        assert(!('a' <= local_digits()[j] && local_digits()[j] <= 'z'));
    }
}

/// Showing a generated address or prefix in lower case and then
/// upper-casing the text gives what showing it in upper case gives, with the
/// separator upper-cased too.
pub proof fn lemma_case_round_trip(mac: Seq<Seq<char>>, sep: Seq<char>)
    requires
        is_mac(mac),
    ensures
        upper_seq(octets_line(mac, true, sep)) == octets_line(mac, false, upper_seq(sep)),
{
    let lowered = mac.map_values(|o: Seq<char>| cased(o, true));
    lemma_upper_joined(lowered, sep);
    let back = lowered.map_values(|p: Seq<char>| upper_seq(p));
    assert forall|k: int| 0 <= k < mac.len() implies #[trigger] back[k] == mac[k] by {
        assert forall|i: int| 0 <= i < mac[k].len() implies back[k][i] == mac[k][i] by {
            lemma_mac_has_no_lower(mac, k, i);
            lemma_upper_lower_char(mac[k][i]);
        }
        assert(back[k] =~= mac[k]);
    }
    assert(back =~= mac);
    assert(mac.map_values(|o: Seq<char>| cased(o, false)) =~= mac);
}

/// Whatever the case chosen, the first octet of a generated address or
/// prefix is shown with a second digit of 2, 6, A or E (a or e in lower
/// case).
pub proof fn lemma_first_octet_shown(mac: Seq<Seq<char>>, lower: bool)
    requires
        is_mac(mac),
    ensures
        ({
            let d = mac.map_values(|o: Seq<char>| cased(o, lower))[0][1];
            if lower {
                d == '2' || d == '6' || d == 'a' || d == 'e'
            } else {
                d == '2' || d == '6' || d == 'A' || d == 'E'
            }
        }),
{
    let c = mac[0][1];
    let j = choose|j: int| 0 <= j < local_digits().len() && local_digits()[j] == c;
    assert(c == '2' || c == '6' || c == 'A' || c == 'E');
}

/// A generated address or prefix with the way it is to be shown.
pub struct MachineAddress {
    /// The octets generated, first to last.
    pub mac: Vec<String>,
    /// The number of command-line arguments, the program's path included.
    pub arg_count: usize,
    /// Letters are shown in lower case when set, as generated otherwise.
    pub case: bool,
    /// No separator is shown between octets when set.
    pub no_separator: bool,
    /// The separator shown between octets.
    pub separator: String,
}

impl MachineAddress {
    /// The separator actually shown.
    pub open spec fn separator_shown(&self) -> Seq<char> {
        if self.no_separator {
            Seq::empty()
        } else {
            self.separator@
        }
    }

    /// The octets, as shown.
    pub open spec fn octets_text(&self) -> Seq<char> {
        octets_line(string_views(self.mac@), self.case, self.separator_shown())
    }

    /// The lowest (`is_beginning`) or highest address of the range.
    pub open spec fn assignable_text(&self, is_beginning: bool) -> Seq<char> {
        range_end(string_views(self.mac@), self.case, self.separator_shown(), is_beginning)
    }

    /// The report shown for this address or prefix.
    pub open spec fn text(&self) -> Seq<char> {
        report_text(string_views(self.mac@), self.arg_count as nat, self.case, self.separator_shown())
    }

    /// The separator shown between octets, as a string.
    fn separator_str(&self) -> (r: &str)
        ensures
            r@ == self.separator_shown(),
    {
        if self.no_separator {
            proof {
                reveal_strlit("");
            }
            ""
        } else {
            self.separator.as_str()
        }
    }

    /// The octets, case applied and joined by the separator.
    pub fn render_octets(&self) -> (r: String)
        ensures
            r@ == self.octets_text(),
    {
        let mut r = String::new();
        push_joined(&mut r, &self.mac, self.case, self.separator_str());
        r
    }

    /// The lowest (`is_beginning`) or highest address that the prefix spans.
    pub fn render_assignable_octets(&self, is_beginning: bool) -> (r: String)
        requires
            self.mac@.len() <= 6,
        ensures
            r@ == self.assignable_text(is_beginning),
    {
        let mut r = self.render_octets();
        let sep = self.separator_str();
        push_str(&mut r, sep);
        let octet = if is_beginning {
            "00"
        } else if self.case {
            "ff"
        } else {
            "FF"
        };
        push_repeated(&mut r, 6 - self.mac.len(), octet, sep);
        r
    }

    /// How many addresses the prefix leaves to assign: 256 to the power of
    /// the number of octets it lacks.
    pub fn assignable_addresses(&self) -> (r: u64)
        requires
            self.mac@.len() <= 6,
        ensures
            r == assignable_count(self.mac@.len()),
    {
        let free = 6 - self.mac.len();
        let mut count: u64 = 1;
        let mut k: usize = 0;
        proof {
            reveal(pow);
        }
        while k < free
            invariant
                free == 6 - self.mac@.len(),
                k <= free <= 6,
                count == pow(256, k as nat),
            decreases free - k,
        {
            proof {
                lemma_pow_increases(256, k as nat, 5);
                reveal_with_fuel(pow, 6);
            }
            count = count * 256;
            k = k + 1;
        }
        count
    }

    /// The report shown for this address or prefix.
    pub fn render(&self) -> (r: String)
        requires
            self.mac@.len() <= 6,
        ensures
            r@ == self.text(),
    {
        let mut r = String::new();
        if self.arg_count == 1 {
            push_str(&mut r, "No arguments were used.  Type pmg -h or pmg --help for more information.\n");
            push_str(&mut r, "Generating MAC addresses for default settings: -r 1 -s : -c l\n");
            push_str(&mut r, "\n");
        }
        if self.mac.len() < 6 {
            push_str(&mut r, "Private MAC Prefix:    ");
        } else {
            push_str(&mut r, "Private MAC Address:   ");
        }
        push_str(&mut r, self.render_octets().as_str());
        if self.mac.len() < 6 {
            push_str(&mut r, "\n");
            push_str(&mut r, "Assignable Addresses:  ");
            push_decimal(&mut r, self.assignable_addresses());
            push_str(&mut r, "\n");
            push_str(&mut r, "Assigned Addresses:    ");
            push_str(&mut r, self.render_assignable_octets(true).as_str());
            push_str(&mut r, " - ");
            push_str(&mut r, self.render_assignable_octets(false).as_str());
        }
        assert(r@ =~= self.text());
        r
    }
}

} // verus!
