//! One run of the generator: the options read off the command line, and the
//! help text or the report they call for.
use vstd::prelude::*;

use crate::address::{banner, report_text, MachineAddress};
use crate::args::{
    flag_names, parse_arguments, parsed, resolved, tokens_view, Argument, ArgumentWithValue, Token,
};
use crate::hex::{generate_mac, is_mac, mac_len};
use crate::text::{push_char, string_views};

verus! {

/// The help text.
pub const HELP: &'static str = "Help file for pmg (Private MAC Generator), a random private MAC generator.

NAME
    pmg

SYNTAX POSIX
    pmg [-h] [-u] [-n] [[-r] <integer>] [[-s] <string>] [[-c] <string>]

SYNTAX GNU
    pmg [--help] [--unique] [[--range] <integer>] [[--separator] <string>] [[--case] <string>]
	
USAGE
    POSIX   GNU             NOTES
    -h      --help          Displays help message.
                            Overrides:  All
	
    -u      --unique        Generates a single MAC address.  
                            Overrides: -r/--range.
    in      --noSeparator   Generates a MAC address or prefix without a separator.
                            Overrides: -s/--separator
						
    -r      --range         Generates a MAC prefix for a range of private addresses.
                            Accepted Values:  1 2 3
                            Defaults: 1
                            Notes:  Refers to how many octets to use to generate your
                                    private MAC prefix.
                                    1 (1 octet)  =      255 assignable addresses
                                    2 (2 octets) =    65536 assignable addresses
                                    3 (3 octets) = 16777216 assignable addresses
								
    -s      --separator     The separator used for the MAC address.
                            Accepted Values:  : - .
                            Defaults:  :
						
    -c      --case          The case the hexadecimal letters are shown in.
                            Accepted Values:  l u lower upper
                            Defaults:  l

EXAMPLES
    pmg -u                  Provides a single MAC address: xxxxxxxxxxxx
    pmg -r 2 -c u -s :      Provides a MAC prefix of:  XX:XX:XX:XX
    pmg -s -                Provides a MAC prefix of:  xx-xx-xx-xx-xx					
						
REMARKS
    Providing incorrect values for arguments will result in use of default value for that argument.
    Example:  pmg -r 5 [Result will use default for -r which is 1]	
	
CONTACT INFORMATION
    Paul Hill
    paulghill@msn.com
	
Copyright 2017";

/// The octet range: `1`, `2` or `3` octets left to assign; 1 by default.
pub open spec fn range_of(t: Seq<Token>) -> usize {
    resolved(t, "range"@, "r"@, seq!["1"@, "2"@, "3"@], seq![1usize, 2usize, 3usize], 1usize)
}

/// Letters in lower case (`l`, `lower`; the default) or upper case (`u`,
/// `upper`).
pub open spec fn lower_case_of(t: Seq<Token>) -> bool {
    resolved(
        t,
        "case"@,
        "c"@,
        seq!["u"@, "l"@, "lower"@, "upper"@],
        seq![false, true, true, false],
        true,
    )
}

/// The separator: `:` (the default), `-` or `.`. A value that starts with a
/// dash is never read as one, so `-s -` keeps the default.
pub open spec fn separator_of(t: Seq<Token>) -> char {
    resolved(t, "separator"@, "s"@, seq![":"@, "-"@, "."@], seq![':', '-', '.'], ':')
}

/// A flag without a value is given, in either spelling.
pub open spec fn flag_given(t: Seq<Token>, gnu: Seq<char>, posix: Seq<char>) -> bool {
    flag_names(t).contains(gnu) || flag_names(t).contains(posix)
}

/// Help is asked for.
pub open spec fn help_of(t: Seq<Token>) -> bool {
    flag_given(t, "help"@, "h"@)
}

/// A whole address is asked for rather than a prefix.
pub open spec fn unique_of(t: Seq<Token>) -> bool {
    flag_given(t, "unique"@, "u"@)
}

/// No separator is to be shown.
pub open spec fn no_separator_of(t: Seq<Token>) -> bool {
    flag_given(t, "noSeparator"@, "n"@)
}

/// The separator shown between octets for the tokens `t`.
pub open spec fn separator_shown_of(t: Seq<Token>) -> Seq<char> {
    if no_separator_of(t) {
        Seq::empty()
    } else {
        seq![separator_of(t)]
    }
}

/// With nothing on the command line but the program's path, every option
/// takes its default and no flag counts as given; the report is that of a
/// prefix of five octets, opened by the banner and the prefix header.
pub proof fn lemma_no_arguments(path: Seq<char>, mac: Seq<Seq<char>>, lower: bool, sep: Seq<char>)
    requires
        mac.len() == mac_len(1, false),
    ensures
        ({
            let t = parsed(seq![path]);
            &&& range_of(t) == 1
            &&& lower_case_of(t)
            &&& separator_of(t) == ':'
            &&& !help_of(t)
            &&& !unique_of(t)
            &&& !no_separator_of(t)
            &&& mac_len(range_of(t), unique_of(t)) == 5
            &&& (banner() + "Private MAC Prefix:    "@).is_prefix_of(report_text(mac, 1, lower, sep))
        }),
{
    let args = seq![path];
    let t = parsed(args);
    assert(t =~= seq![("path"@, path)]);
    let names = flag_names(t);
    assert(names =~= seq!["path"@]);
    reveal_strlit("path");
    reveal_strlit("range");
    reveal_strlit("r");
    reveal_strlit("case");
    reveal_strlit("c");
    reveal_strlit("separator");
    reveal_strlit("s");
    reveal_strlit("help");
    reveal_strlit("h");
    reveal_strlit("unique");
    reveal_strlit("u");
    reveal_strlit("noSeparator");
    reveal_strlit("n");
    assert(!names.contains("range"@)) by { assert("range"@.len() != "path"@.len()); }
    assert(!names.contains("r"@)) by { assert("r"@.len() != "path"@.len()); }
    assert(!names.contains("case"@)) by { assert("case"@[0] != "path"@[0]); }
    assert(!names.contains("c"@)) by { assert("c"@.len() != "path"@.len()); }
    assert(!names.contains("separator"@)) by { assert("separator"@.len() != "path"@.len()); }
    assert(!names.contains("s"@)) by { assert("s"@.len() != "path"@.len()); }
    assert(!names.contains("help"@)) by { assert("help"@[0] != "path"@[0]); }
    assert(!names.contains("h"@)) by { assert("h"@.len() != "path"@.len()); }
    assert(!names.contains("unique"@)) by { assert("unique"@.len() != "path"@.len()); }
    assert(!names.contains("u"@)) by { assert("u"@.len() != "path"@.len()); }
    assert(!names.contains("noSeparator"@)) by { assert("noSeparator"@.len() != "path"@.len()); }
    assert(!names.contains("n"@)) by { assert("n"@.len() != "path"@.len()); }
    let head = banner() + "Private MAC Prefix:    "@;
    let r = report_text(mac, 1, lower, sep);
    assert(r.subrange(0, head.len() as int) =~= head);
}

/// What a command line asks for.
pub struct Options {
    pub range: usize,
    /// Letters in lower case when set.
    pub case: bool,
    pub separator: String,
    pub no_separator: bool,
    pub unique: bool,
    pub help: bool,
    /// The number of arguments, the program's path included.
    pub arg_count: usize,
}

impl Options {
    /// These are the options that the command line `args` asks for.
    pub open spec fn resolved_from(&self, args: Seq<Seq<char>>) -> bool {
        let t = parsed(args);
        &&& self.range == range_of(t)
        &&& self.case == lower_case_of(t)
        &&& self.separator@ == seq![separator_of(t)]
        &&& self.no_separator == no_separator_of(t)
        &&& self.unique == unique_of(t)
        &&& self.help == help_of(t)
        &&& self.arg_count == args.len()
    }

    /// The separator shown between octets.
    pub open spec fn separator_shown(&self) -> Seq<char> {
        if self.no_separator {
            Seq::empty()
        } else {
            self.separator@
        }
    }
}

/// The help text, as a string.
pub fn print_help() -> (r: String)
    ensures
        r@ == HELP@,
{
    String::from_str(HELP)
}

/// A flag spelled `-posix` and `--gnu`.
fn flag(posix: &str, gnu: &str) -> (r: Argument)
    ensures
        r.posix@ == posix@,
        r.gnu@ == gnu@,
{
    Argument { posix: String::from_str(posix), gnu: String::from_str(gnu) }
}

/// The octet range option: `-r`, `--range`.
pub fn range_argument() -> (r: ArgumentWithValue<usize>)
    ensures
        r.wf(),
        forall|t: Seq<Token>| #[trigger] r.value_for(t) == range_of(t),
{
    let r = ArgumentWithValue {
        arg: flag("r", "range"),
        accepted_values: vec![String::from_str("1"), String::from_str("2"), String::from_str("3")],
        return_values: vec![1usize, 2usize, 3usize],
        default_value: 1usize,
    };
    assert(string_views(r.accepted_values@) =~= seq!["1"@, "2"@, "3"@]);
    assert(r.return_values@ =~= seq![1usize, 2usize, 3usize]);
    r
}

/// The letter case option: `-c`, `--case`.
pub fn case_argument() -> (r: ArgumentWithValue<bool>)
    ensures
        r.wf(),
        forall|t: Seq<Token>| #[trigger] r.value_for(t) == lower_case_of(t),
{
    let r = ArgumentWithValue {
        arg: flag("c", "case"),
        accepted_values: vec![
            String::from_str("u"),
            String::from_str("l"),
            String::from_str("lower"),
            String::from_str("upper"),
        ],
        return_values: vec![false, true, true, false],
        default_value: true,
    };
    assert(string_views(r.accepted_values@) =~= seq!["u"@, "l"@, "lower"@, "upper"@]);
    assert(r.return_values@ =~= seq![false, true, true, false]);
    r
}

/// The separator option: `-s`, `--separator`.
pub fn separator_argument() -> (r: ArgumentWithValue<char>)
    ensures
        r.wf(),
        forall|t: Seq<Token>| #[trigger] r.value_for(t) == separator_of(t),
{
    let r = ArgumentWithValue {
        arg: flag("s", "separator"),
        accepted_values: vec![String::from_str(":"), String::from_str("-"), String::from_str(".")],
        return_values: vec![':', '-', '.'],
        default_value: ':',
    };
    assert(string_views(r.accepted_values@) =~= seq![":"@, "-"@, "."@]);
    assert(r.return_values@ =~= seq![':', '-', '.']);
    r
}

/// Reads the options off a command line whose first argument is the
/// program's path.
pub fn resolve_options(args: &Vec<String>) -> (r: Options)
    ensures
        r.resolved_from(string_views(args@)),
{
    let parsed_args = parse_arguments(args);
    let ghost t = tokens_view(parsed_args@);
    let help = flag("h", "help").is_used(&parsed_args);
    let unique = flag("u", "unique").is_used(&parsed_args);
    let no_separator = flag("n", "noSeparator").is_used(&parsed_args);
    let range = *range_argument().get_return_value(&parsed_args);
    let case = *case_argument().get_return_value(&parsed_args);
    let mut separator = String::new();
    push_char(&mut separator, *separator_argument().get_return_value(&parsed_args));
    assert(separator@ =~= seq![separator_of(t)]);
    Options { range, case, separator, no_separator, unique, help, arg_count: args.len() }
}

/// The report for `mac` under `options`.
pub fn report(options: &Options, mac: Vec<String>) -> (r: String)
    requires
        mac@.len() <= 6,
    ensures
        r@ == report_text(
            string_views(mac@),
            options.arg_count as nat,
            options.case,
            options.separator_shown(),
        ),
{
    let address = MachineAddress {
        mac,
        arg_count: options.arg_count,
        case: options.case,
        no_separator: options.no_separator,
        separator: options.separator.clone(),
    };
    address.render()
}

/// One run on a command line whose first argument is the program's path:
/// the help text where help is asked for; else the report for a freshly
/// generated address or prefix of the size asked for.
pub fn run(args: &Vec<String>) -> (r: String)
    ensures
        ({
            let t = parsed(string_views(args@));
            &&& help_of(t) ==> r@ == HELP@
            &&& !help_of(t) ==> exists|mac: Seq<Seq<char>>|
                {
                    &&& is_mac(mac)
                    &&& mac.len() == mac_len(range_of(t), unique_of(t))
                    &&& r@ == report_text(
                        mac,
                        args@.len(),
                        lower_case_of(t),
                        separator_shown_of(t),
                    )
                }
        }),
{
    let options = resolve_options(args);
    if options.help {
        print_help()
    } else {
        let mac = generate_mac(options.range, options.unique);
        let ghost octets = string_views(mac@);
        let r = report(&options, mac);
        assert(is_mac(octets));
        r
    }
}

} // verus!
