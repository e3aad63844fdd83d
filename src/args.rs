//! Reading POSIX (`-r`) and GNU (`--range`) style flags off the command line,
//! and resolving each option from the flags that were read.
use vstd::prelude::*;

use crate::text::{push_char, string_views};

verus! {

/// A flag as spelled on the command line, paired with its value.
pub type Token = (Seq<char>, Seq<char>);

/// One flag read off the command line, with the argument that followed it as
/// its value (empty where none did). Two of them are equal when they name the
/// same flag.
pub struct ParsedArgument {
    pub arg: String,
    pub value: String,
}

impl View for ParsedArgument {
    type V = Token;

    open spec fn view(&self) -> Token {
        (self.arg@, self.value@)
    }
}

impl PartialEq for ParsedArgument {
    fn eq(&self, other: &ParsedArgument) -> (r: bool) {
        self.arg == other.arg
    }
}

impl vstd::std_specs::cmp::PartialEqSpecImpl for ParsedArgument {
    open spec fn obeys_eq_spec() -> bool {
        true
    }

    open spec fn eq_spec(&self, other: &ParsedArgument) -> bool {
        self.arg@ == other.arg@
    }
}

/// The flags and values of a list of parsed arguments.
pub open spec fn tokens_view(v: Seq<ParsedArgument>) -> Seq<Token> {
    v.map_values(|p: ParsedArgument| p@)
}

/// The flag names of a list of tokens.
pub open spec fn flag_names(t: Seq<Token>) -> Seq<Seq<char>> {
    t.map_values(|p: Token| p.0)
}

/// `k` is the first position of `x` in `s`.
pub open spec fn is_first<A>(s: Seq<A>, k: int, x: A) -> bool {
    &&& 0 <= k < s.len()
    &&& s[k] == x
    &&& forall|j: int| 0 <= j < k ==> s[j] != x
}

/// The first position of `x` in `s`, where `s` contains it.
pub open spec fn first_index<A>(s: Seq<A>, x: A) -> int {
    choose|k: int| is_first(s, k, x)
}

/// There is only one first position.
proof fn lemma_first_index<A>(s: Seq<A>, k: int, x: A)
    requires
        is_first(s, k, x),
    ensures
        first_index(s, x) == k,
        s.contains(x),
{
    let c = first_index(s, x);
    assert(is_first(s, c, x));
    if c < k {
        assert(s[c] != x);
    } else if k < c {
        assert(s[k] != x);
    }
}

/// An argument that opens with a single dash names POSIX flags.
pub open spec fn starts_with_dash(a: Seq<char>) -> bool {
    a.len() > 0 && a[0] == '-'
}

/// An argument that opens with two dashes names one GNU flag.
pub open spec fn starts_with_two_dashes(a: Seq<char>) -> bool {
    a.len() >= 2 && a[0] == '-' && a[1] == '-'
}

/// The value of a flag at position `i`: the argument after it, unless there
/// is none or it starts with a dash.
pub open spec fn value_after(args: Seq<Seq<char>>, i: int) -> Seq<char> {
    if i + 1 < args.len() && !starts_with_dash(args[i + 1]) {
        args[i + 1]
    } else {
        Seq::empty()
    }
}

/// The tokens that argument `i` gives: `--name` one flag with a value; `-x`
/// one flag with a value; `-xyz` one flag per letter, none with a value; an
/// argument without a dash none.
pub open spec fn tokens_of(args: Seq<Seq<char>>, i: int) -> Seq<Token> {
    let a = args[i];
    if starts_with_two_dashes(a) {
        seq![(a.subrange(2, a.len() as int), value_after(args, i))]
    } else if starts_with_dash(a) {
        let name = a.subrange(1, a.len() as int);
        if name.len() == 1 {
            seq![(name, value_after(args, i))]
        } else {
            name.map_values(|c: char| (seq![c], Seq::<char>::empty()))
        }
    } else {
        Seq::empty()
    }
}

/// The token that always comes first: it holds the program's path, so that
/// position zero never stands for a flag the user gave.
pub open spec fn path_token(args: Seq<Seq<char>>) -> Token {
    ("path"@, if args.len() > 0 { args[0] } else { Seq::empty() })
}

/// The tokens read off the first `n` arguments.
pub open spec fn parsed_prefix(args: Seq<Seq<char>>, n: int) -> Seq<Token>
    decreases n,
{
    if n <= 1 {
        seq![path_token(args)]
    } else {
        parsed_prefix(args, n - 1) + tokens_of(args, n - 1)
    }
}

/// The tokens read off a whole command line; its first argument is the
/// program's path.
pub open spec fn parsed(args: Seq<Seq<char>>) -> Seq<Token> {
    parsed_prefix(args, args.len() as int)
}

/// The position of the token that a flag resolves to: the first one named
/// by its GNU spelling, else the first one named by its POSIX spelling, else
/// zero (the path token) when neither is there.
pub open spec fn flag_index(t: Seq<Token>, gnu: Seq<char>, posix: Seq<char>) -> int {
    let names = flag_names(t);
    if names.contains(gnu) {
        first_index(names, gnu)
    } else if names.contains(posix) {
        first_index(names, posix)
    } else {
        0
    }
}

/// The value that an option resolves to: the one paired with the first
/// accepted literal equal to its flag's value, or the default where the flag
/// is absent or its value is not accepted.
pub open spec fn resolved<T>(
    t: Seq<Token>,
    gnu: Seq<char>,
    posix: Seq<char>,
    accepted: Seq<Seq<char>>,
    returns: Seq<T>,
    default: T,
) -> T {
    let i = flag_index(t, gnu, posix);
    if i > 0 && accepted.contains(t[i].1) {
        returns[first_index(accepted, t[i].1)]
    } else {
        default
    }
}

/// The first position at which `args` holds a token equal to `target`.
fn position(args: &Vec<ParsedArgument>, target: &ParsedArgument) -> (r: Option<usize>)
    ensures
        match r {
            Some(k) => is_first(flag_names(tokens_view(args@)), k as int, target.arg@),
            None => !flag_names(tokens_view(args@)).contains(target.arg@),
        },
{
    let ghost names = flag_names(tokens_view(args@));
    let mut k: usize = 0;
    while k < args.len()
        invariant
            k <= args@.len(),
            names == flag_names(tokens_view(args@)),
            forall|j: int| 0 <= j < k ==> names[j] != target.arg@,
        decreases args@.len() - k,
    {
        if args[k] == *target {
            return Some(k);
        }
        k = k + 1;
    }
    assert(!names.contains(target.arg@)) by {
        if names.contains(target.arg@) {
            let j = choose|j: int| 0 <= j < names.len() && names[j] == target.arg@;
            assert(names[j] != target.arg@);
        }
    }
    None
}

/// Parses a command line whose first argument is the program's path.
pub fn parse_arguments(args: &Vec<String>) -> (r: Vec<ParsedArgument>)
    ensures
        tokens_view(r@) == parsed(string_views(args@)),
{
    let ghost av = string_views(args@);
    let path_value = if args.len() > 0 {
        args[0].clone()
    } else {
        String::new()
    };
    let mut output = vec![ParsedArgument { arg: String::from_str("path"), value: path_value }];
    assert(tokens_view(output@) =~= parsed_prefix(av, 0));
    let mut i: usize = 1;
    while i < args.len()
        invariant
            1 <= i,
            i <= args@.len() || i == 1,
            av == string_views(args@),
            tokens_view(output@) == parsed_prefix(av, i as int),
        decreases args@.len() - i,
    {
        push_tokens(&mut output, args, i);
        i = i + 1;
    }
    assert(av.len() == args@.len());
    if args.len() == 0 {
        assert(parsed_prefix(av, 1) == parsed_prefix(av, 0));
    }
    output
}

/// The value that a flag at position `i` takes, as `value_after` states it.
fn next_value(args: &Vec<String>, i: usize) -> (r: String)
    requires
        i < args@.len(),
    ensures
        r@ == value_after(string_views(args@), i as int),
{
    if i < args.len() - 1 {
        let next = args[i + 1].as_str();
        if next.unicode_len() > 0 && next.get_char(0) == '-' {
            String::new()
        } else {
            args[i + 1].clone()
        }
    } else {
        String::new()
    }
}

/// Appends the tokens that argument `i` gives.
fn push_tokens(output: &mut Vec<ParsedArgument>, args: &Vec<String>, i: usize)
    requires
        i < args@.len(),
    ensures
        tokens_view(final(output)@) == tokens_view(old(output)@) + tokens_of(
            string_views(args@),
            i as int,
        ),
{
    let ghost start = tokens_view(output@);
    let ghost a = args@[i as int]@;
    let ghost produced = tokens_of(string_views(args@), i as int);
    let current = args[i].as_str();
    let len = current.unicode_len();
    if len >= 2 && current.get_char(0) == '-' && current.get_char(1) == '-' {
        let name = String::from_str(current.substring_char(2, len));
        output.push(ParsedArgument { arg: name, value: next_value(args, i) });
        assert(tokens_view(output@) =~= start + produced);
    } else if len >= 1 && current.get_char(0) == '-' {
        if len == 2 {
            let name = String::from_str(current.substring_char(1, 2));
            output.push(ParsedArgument { arg: name, value: next_value(args, i) });
            assert(tokens_view(output@) =~= start + produced);
        } else {
            let ghost name = a.subrange(1, a.len() as int);
            let mut j: usize = 1;
            while j < len
                invariant
                    1 <= j <= len,
                    len == a.len(),
                    a == current@,
                    name == a.subrange(1, a.len() as int),
                    name.len() != 1,
                    produced == name.map_values(|c: char| (seq![c], Seq::<char>::empty())),
                    tokens_view(output@) == start + produced.subrange(0, j - 1),
                decreases len - j,
            {
                let ghost before = tokens_view(output@);
                let c = current.get_char(j);
                let mut flag = String::new();
                push_char(&mut flag, c);
                let token = ParsedArgument { arg: flag, value: String::new() };
                assert(token@ == produced[j - 1]) by {
                    assert(flag@ =~= seq![c]);
                    assert(name[j - 1] == c);
                }
                output.push(token);
                assert(tokens_view(output@) =~= before.push(token@));
                j = j + 1;
                assert(tokens_view(output@) =~= start + produced.subrange(0, j - 1));
            }
            assert(produced.subrange(0, len - 1) =~= produced);
        }
    } else {
        assert(tokens_view(output@) =~= start + produced);
    }
}

/// The two spellings of one flag, without their dashes: `posix` after one
/// dash (`r`), `gnu` after two (`range`).
pub struct Argument {
    pub posix: String,
    pub gnu: String,
}

impl Argument {
    /// The flag appears on the command line, in either spelling.
    pub open spec fn used_in(&self, t: Seq<Token>) -> bool {
        flag_names(t).contains(self.gnu@) || flag_names(t).contains(self.posix@)
    }

    /// Whether the flag appears among `args`, in either spelling.
    pub fn is_used(&self, args: &Vec<ParsedArgument>) -> (r: bool)
        ensures
            r == self.used_in(tokens_view(args@)),
    {
        if position(args, &self.parsed_gnu()).is_some() {
            true
        } else if position(args, &self.parsed_posix()).is_some() {
            true
        } else {
            false
        }
    }

    /// A token for the GNU spelling, with no value.
    pub fn parsed_gnu(&self) -> (r: ParsedArgument)
        ensures
            r.arg@ == self.gnu@,
            r.value@ == Seq::<char>::empty(),
    {
        ParsedArgument { arg: self.gnu.clone(), value: String::new() }
    }

    /// A token for the POSIX spelling, with no value.
    pub fn parsed_posix(&self) -> (r: ParsedArgument)
        ensures
            r.arg@ == self.posix@,
            r.value@ == Seq::<char>::empty(),
    {
        ParsedArgument { arg: self.posix.clone(), value: String::new() }
    }
}

/// An option that takes a value: the literals it accepts, the value that
/// each of them stands for (paired by position), and the default.
pub struct ArgumentWithValue<T> {
    pub arg: Argument,
    pub accepted_values: Vec<String>,
    pub return_values: Vec<T>,
    pub default_value: T,
}

impl<T> ArgumentWithValue<T> {
    /// Each accepted literal has a value paired with it.
    pub open spec fn wf(&self) -> bool {
        self.accepted_values@.len() == self.return_values@.len()
    }

    /// The value this option resolves to among the tokens `t`.
    pub open spec fn value_for(&self, t: Seq<Token>) -> T {
        resolved(
            t,
            self.arg.gnu@,
            self.arg.posix@,
            string_views(self.accepted_values@),
            self.return_values@,
            self.default_value,
        )
    }

    /// The position of the token that the option's flag resolves to, zero
    /// where the flag is absent.
    pub fn get_index(&self, args: &Vec<ParsedArgument>) -> (r: usize)
        ensures
            r == flag_index(tokens_view(args@), self.arg.gnu@, self.arg.posix@),
            r == 0 || r < args@.len(),
    {
        let ghost names = flag_names(tokens_view(args@));
        match position(args, &self.arg.parsed_gnu()) {
            Some(k) => {
                proof {
                    lemma_first_index(names, k as int, self.arg.gnu@);
                }
                k
            },
            None => match position(args, &self.arg.parsed_posix()) {
                Some(k) => {
                    proof {
                        lemma_first_index(names, k as int, self.arg.posix@);
                    }
                    k
                },
                None => 0,
            },
        }
    }

    /// The value the option resolves to among `args`.
    pub fn get_return_value(&self, args: &Vec<ParsedArgument>) -> (r: &T)
        requires
            self.wf(),
        ensures
            *r == self.value_for(tokens_view(args@)),
    {
        let index = self.get_index(args);
        if index > 0 && index < args.len() {
            let value = &args[index].value;
            assert(value@ == tokens_view(args@)[index as int].1);
            let ghost accepted = string_views(self.accepted_values@);
            let mut k: usize = 0;
            while k < self.accepted_values.len()
                invariant
                    self.wf(),
                    0 < index < args@.len(),
                    index == flag_index(tokens_view(args@), self.arg.gnu@, self.arg.posix@),
                    value@ == tokens_view(args@)[index as int].1,
                    k <= self.accepted_values@.len(),
                    accepted == string_views(self.accepted_values@),
                    forall|j: int| 0 <= j < k ==> accepted[j] != value@,
                decreases self.accepted_values@.len() - k,
            {
                if self.accepted_values[k] == *value {
                    proof {
                        lemma_first_index(accepted, k as int, value@);
                    }
                    return &self.return_values[k];
                }
                k = k + 1;
            }
            assert(!accepted.contains(value@)) by {
                if accepted.contains(value@) {
                    let j = choose|j: int| 0 <= j < accepted.len() && accepted[j] == value@;
                    assert(accepted[j] != value@);
                }
            }
            &self.default_value
        } else {
            &self.default_value
        }
    }
}

} // verus!
