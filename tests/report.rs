use pmg::address::MachineAddress;
use pmg::cli::{print_help, report, resolve_options, run, HELP};
use pmg::hex::{
    generate_first_octet, generate_hexadecimal, generate_mac, generate_octet, hex_digit,
    local_digit, mac_from_indices, octet_count,
};

const RANDOM: &str = "123456789ABCDEF";
const LOCAL: &str = "26AE";

fn line(words: &[&str]) -> Vec<String> {
    words.iter().map(|w| w.to_string()).collect()
}

fn octets(words: &[&str]) -> Vec<String> {
    line(words)
}

fn address(mac: &[&str], arg_count: usize, case: bool, no_separator: bool, sep: &str) -> MachineAddress {
    MachineAddress {
        mac: octets(mac),
        arg_count,
        case,
        no_separator,
        separator: sep.to_string(),
    }
}

fn check_mac(mac: &[String]) {
    let first: Vec<char> = mac[0].chars().collect();
    assert_eq!(first.len(), 2);
    assert!(RANDOM.contains(first[0]));
    assert!(LOCAL.contains(first[1]));
    for o in &mac[1..] {
        let cs: Vec<char> = o.chars().collect();
        assert_eq!(cs.len(), 2);
        assert!(RANDOM.contains(cs[0]) && RANDOM.contains(cs[1]));
    }
}

#[test]
fn prefix_sizes() {
    for range in 1..=3usize {
        for _ in 0..20 {
            let mac = generate_mac(range, false);
            assert_eq!(mac.len(), 6 - range);
            check_mac(&mac);
        }
    }
}

#[test]
fn prefix_counts() {
    let expect = [(1usize, 256u64), (2, 65536), (3, 16777216)];
    for (range, count) in expect {
        let a = MachineAddress {
            mac: generate_mac(range, false),
            arg_count: 3,
            case: true,
            no_separator: false,
            separator: ":".to_string(),
        };
        assert_eq!(a.assignable_addresses(), count);
        let text = a.render();
        assert!(text.contains(&format!("Assignable Addresses:  {}\n", count)));
    }
}

#[test]
fn unique_is_whole_address() {
    for range in 0..6usize {
        let mac = generate_mac(range, true);
        assert_eq!(mac.len(), 6);
        check_mac(&mac);
    }
    assert_eq!(generate_mac(0, false).len(), 6);
    assert_eq!(generate_mac(4, false).len(), 6);
}

#[test]
fn first_octet_is_local_across_trials() {
    for _ in 0..2000 {
        let o = generate_first_octet();
        let cs: Vec<char> = o.chars().collect();
        assert_eq!(cs.len(), 2);
        assert!(matches!(cs[1], '2' | '6' | 'A' | 'E'));
        assert!(RANDOM.contains(cs[0]));
    }
}

#[test]
fn random_digits_never_zero() {
    for _ in 0..2000 {
        let d = generate_hexadecimal();
        assert_eq!(d.len(), 1);
        assert!(RANDOM.contains(d.as_str()));
        let o = generate_octet();
        assert_eq!(o.len(), 2);
        assert!(!o.contains('0'));
    }
}

#[test]
fn digits_by_index() {
    assert_eq!(hex_digit(0), '1');
    assert_eq!(hex_digit(8), '9');
    assert_eq!(hex_digit(9), 'A');
    assert_eq!(hex_digit(14), 'F');
    assert_eq!(local_digit(0), '2');
    assert_eq!(local_digit(1), '6');
    assert_eq!(local_digit(2), 'A');
    assert_eq!(local_digit(3), 'E');
}

#[test]
fn octets_from_indices() {
    let idx = vec![9, 3, 0, 14, 10, 11, 12, 13, 1, 2, 4, 5];
    assert_eq!(mac_from_indices(3, false, &idx), octets(&["AE", "1F", "BC"]));
    assert_eq!(mac_from_indices(1, false, &idx), octets(&["AE", "1F", "BC", "DE", "23"]));
    assert_eq!(mac_from_indices(2, true, &idx), octets(&["AE", "1F", "BC", "DE", "23", "56"]));
    assert_eq!(octet_count(1, false), 5);
    assert_eq!(octet_count(3, false), 3);
    assert_eq!(octet_count(2, true), 6);
}

#[test]
fn prefix_report_exact() {
    let a = address(&["AE", "1F", "BC"], 5, false, false, ":");
    assert_eq!(a.render_octets(), "AE:1F:BC");
    assert_eq!(a.render_assignable_octets(true), "AE:1F:BC:00:00:00");
    assert_eq!(a.render_assignable_octets(false), "AE:1F:BC:FF:FF:FF");
    assert_eq!(
        a.render(),
        "Private MAC Prefix:    AE:1F:BC\n\
         Assignable Addresses:  16777216\n\
         Assigned Addresses:    AE:1F:BC:00:00:00 - AE:1F:BC:FF:FF:FF"
    );
}

#[test]
fn lower_case_report_exact() {
    let a = address(&["AE", "1F", "BC", "DE", "23"], 3, true, false, ".");
    assert_eq!(
        a.render(),
        "Private MAC Prefix:    ae.1f.bc.de.23\n\
         Assignable Addresses:  256\n\
         Assigned Addresses:    ae.1f.bc.de.23.00 - ae.1f.bc.de.23.ff"
    );
}

#[test]
fn no_separator_report_exact() {
    let a = address(&["2E", "1F", "BC", "DE"], 2, true, true, ":");
    assert_eq!(
        a.render(),
        "Private MAC Prefix:    2e1fbcde\n\
         Assignable Addresses:  65536\n\
         Assigned Addresses:    2e1fbcde0000 - 2e1fbcdeffff"
    );
}

#[test]
fn address_report_exact() {
    let a = address(&["A2", "1F", "BC", "DE", "23", "99"], 4, false, false, "-");
    assert_eq!(a.render(), "Private MAC Address:   A2-1F-BC-DE-23-99");
    assert_eq!(a.assignable_addresses(), 1);
}

#[test]
fn banner_without_arguments() {
    let a = address(&["AE", "1F", "BC", "DE", "23"], 1, true, false, ":");
    assert_eq!(
        a.render(),
        "No arguments were used.  Type pmg -h or pmg --help for more information.\n\
         Generating MAC addresses for default settings: -r 1 -s : -c l\n\
         \n\
         Private MAC Prefix:    ae:1f:bc:de:23\n\
         Assignable Addresses:  256\n\
         Assigned Addresses:    ae:1f:bc:de:23:00 - ae:1f:bc:de:23:ff"
    );
}

#[test]
fn case_round_trip() {
    for range in 1..=3usize {
        let mac = generate_mac(range, false);
        let lower = address(&[], 2, true, false, ":");
        let lower = MachineAddress { mac: mac.clone(), ..lower };
        let upper = MachineAddress { mac, case: false, ..address(&[], 2, false, false, ":") };
        assert_eq!(lower.render_octets().to_uppercase(), upper.render_octets());
    }
    let lower = address(&["AE", "1F", "BC"], 2, true, false, ":");
    let upper = address(&["AE", "1F", "BC"], 2, false, false, ":");
    assert_eq!(lower.render_octets(), "ae:1f:bc");
    assert_eq!(lower.render_octets().to_uppercase(), upper.render_octets());
}

#[test]
fn default_run_is_prefix_of_one_octet() {
    let out = run(&line(&["pmg"]));
    let expect_start = "No arguments were used.  Type pmg -h or pmg --help for more information.\n\
                        Generating MAC addresses for default settings: -r 1 -s : -c l\n\
                        \n\
                        Private MAC Prefix:    ";
    assert!(out.starts_with(expect_start));
    assert!(out.contains("Assignable Addresses:  256\n"));
    let rest = &out[expect_start.len()..];
    let prefix = rest.split('\n').next().unwrap();
    assert_eq!(prefix.len(), 14);
    assert_eq!(prefix.split(':').count(), 5);
    assert_eq!(prefix, prefix.to_lowercase());
}

#[test]
fn unique_upper_case_run() {
    let out = run(&line(&["pmg", "-u", "-c", "u", "-s", ":"]));
    let header = "Private MAC Address:   ";
    assert!(out.starts_with(header));
    let mac = &out[header.len()..];
    let parts: Vec<&str> = mac.split(':').collect();
    assert_eq!(parts.len(), 6);
    for p in &parts {
        assert_eq!(p.len(), 2);
        assert!(p.chars().all(|c| RANDOM.contains(c)));
    }
    assert!(LOCAL.contains(parts[0].chars().nth(1).unwrap()));
}

#[test]
fn help_run_is_help_text() {
    assert_eq!(run(&line(&["pmg", "-h"])), HELP);
    assert_eq!(run(&line(&["pmg", "-u", "--help", "-r", "2"])), HELP);
    assert_eq!(print_help(), HELP);
    assert!(HELP.starts_with("Help file for pmg (Private MAC Generator)"));
}

#[test]
fn report_follows_options() {
    let o = resolve_options(&line(&["pmg", "--case", "upper", "-n", "-r", "2"]));
    let text = report(&o, octets(&["AE", "1F", "BC", "DE"]));
    assert_eq!(
        text,
        "Private MAC Prefix:    AE1FBCDE\n\
         Assignable Addresses:  65536\n\
         Assigned Addresses:    AE1FBCDE0000 - AE1FBCDEFFFF"
    );
}
