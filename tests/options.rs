use pmg::args::{parse_arguments, Argument};
use pmg::cli::{
    case_argument, range_argument, resolve_options, separator_argument, Options,
};

fn line(words: &[&str]) -> Vec<String> {
    words.iter().map(|w| w.to_string()).collect()
}

fn range_for(words: &[&str]) -> usize {
    let parsed = parse_arguments(&line(words));
    *range_argument().get_return_value(&parsed)
}

#[test]
fn range_accepts_listed_value() {
    assert_eq!(range_for(&["pmg", "--range", "2"]), 2);
    assert_eq!(range_for(&["pmg", "-r", "3"]), 3);
}

#[test]
fn range_rejects_unlisted_value() {
    assert_eq!(range_for(&["pmg", "--range", "9"]), 1);
}

#[test]
fn range_without_value_takes_default() {
    assert_eq!(range_for(&["pmg", "--range"]), 1);
    assert_eq!(range_for(&["pmg", "-r", "-u"]), 1);
}

#[test]
fn gnu_spelling_wins_over_posix() {
    assert_eq!(range_for(&["pmg", "-r", "3", "--range", "2"]), 2);
}

#[test]
fn first_of_repeated_flags_wins() {
    assert_eq!(range_for(&["pmg", "-r", "2", "-r", "3"]), 2);
}

#[test]
fn no_arguments_give_defaults() {
    let o: Options = resolve_options(&line(&["pmg"]));
    assert_eq!(o.range, 1);
    assert!(o.case);
    assert_eq!(o.separator, ":");
    assert!(!o.no_separator);
    assert!(!o.unique);
    assert!(!o.help);
    assert_eq!(o.arg_count, 1);
}

#[test]
fn clustered_posix_flags() {
    let o = resolve_options(&line(&["pmg", "-un"]));
    assert!(o.unique);
    assert!(o.no_separator);
    assert!(!o.help);
}

#[test]
fn clustered_flags_take_no_value() {
    let parsed = parse_arguments(&line(&["pmg", "-rc", "2"]));
    assert_eq!(parsed.len(), 3);
    assert_eq!(parsed[1].arg, "r");
    assert_eq!(parsed[1].value, "");
    assert_eq!(parsed[2].arg, "c");
    assert_eq!(parsed[2].value, "");
    assert_eq!(*range_argument().get_return_value(&parsed), 1);
}

#[test]
fn parse_keeps_path_first() {
    let parsed = parse_arguments(&line(&["/usr/bin/pmg", "--case", "u", "x", "-s", "."]));
    assert_eq!(parsed.len(), 3);
    assert_eq!(parsed[0].arg, "path");
    assert_eq!(parsed[0].value, "/usr/bin/pmg");
    assert_eq!(parsed[1].arg, "case");
    assert_eq!(parsed[1].value, "u");
    assert_eq!(parsed[2].arg, "s");
    assert_eq!(parsed[2].value, ".");
}

#[test]
fn parse_of_empty_line() {
    let parsed = parse_arguments(&Vec::new());
    assert_eq!(parsed.len(), 1);
    assert_eq!(parsed[0].arg, "path");
    assert_eq!(parsed[0].value, "");
}

#[test]
fn parse_of_bare_dashes() {
    let parsed = parse_arguments(&line(&["pmg", "-", "--", "v"]));
    assert_eq!(parsed.len(), 2);
    assert_eq!(parsed[1].arg, "");
    assert_eq!(parsed[1].value, "v");
}

#[test]
fn case_values() {
    for (word, lower) in [("u", false), ("l", true), ("lower", true), ("upper", false), ("x", true)] {
        let parsed = parse_arguments(&line(&["pmg", "--case", word]));
        assert_eq!(*case_argument().get_return_value(&parsed), lower, "{}", word);
    }
}

#[test]
fn separator_values() {
    for (word, sep) in [(":", ':'), ("-", ':'), (".", '.'), ("/", ':')] {
        let parsed = parse_arguments(&line(&["pmg", "-s", word]));
        assert_eq!(*separator_argument().get_return_value(&parsed), sep, "{}", word);
    }
    let parsed = parse_arguments(&line(&["pmg", "--separator", "-"]));
    assert_eq!(*separator_argument().get_return_value(&parsed), ':');
}

#[test]
fn presence_flags() {
    let help = Argument { posix: "h".to_string(), gnu: "help".to_string() };
    assert!(help.is_used(&parse_arguments(&line(&["pmg", "--help"]))));
    assert!(help.is_used(&parse_arguments(&line(&["pmg", "-h"]))));
    assert!(!help.is_used(&parse_arguments(&line(&["pmg", "help"]))));
    let g = help.parsed_gnu();
    assert_eq!(g.arg, "help");
    assert_eq!(g.value, "");
    let p = help.parsed_posix();
    assert_eq!(p.arg, "h");
    assert_eq!(p.value, "");
}

#[test]
fn get_index_positions() {
    let parsed = parse_arguments(&line(&["pmg", "-u", "-r", "2", "--range", "3"]));
    assert_eq!(range_argument().get_index(&parsed), 3);
    let parsed = parse_arguments(&line(&["pmg", "-u", "-r", "2"]));
    assert_eq!(range_argument().get_index(&parsed), 2);
    let parsed = parse_arguments(&line(&["pmg", "-u"]));
    assert_eq!(range_argument().get_index(&parsed), 0);
}
