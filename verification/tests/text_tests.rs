use glacierdisk::text::{bytes_eq, contains_bytes, ends_with_bytes, find_bytes, parse_u64_digits,
    parse_u8_digits, split_nl_vec, split_ws_vec, starts_with_bytes, trim_bytes};

#[test]
fn parses_plain_decimals() {
    assert_eq!(parse_u64_digits(b"0"), 0);
    assert_eq!(parse_u64_digits(b"123"), 123);
    assert_eq!(parse_u64_digits(b"18446744073709551615"), u64::MAX);
}

#[test]
fn malformed_or_overflowing_input_parses_to_zero() {
    assert_eq!(parse_u64_digits(b""), 0);
    assert_eq!(parse_u64_digits(b"12a"), 0);
    assert_eq!(parse_u64_digits(b"-5"), 0);
    assert_eq!(parse_u64_digits(b"18446744073709551616"), 0);
}

#[test]
fn parses_ports() {
    assert_eq!(parse_u8_digits(b"3"), 3);
    assert_eq!(parse_u8_digits(b"255"), 255);
    assert_eq!(parse_u8_digits(b"256"), 0);
}

#[test]
fn byte_string_predicates() {
    assert!(bytes_eq(b"abc", b"abc"));
    assert!(!bytes_eq(b"abc", b"abd"));
    assert!(starts_with_bytes(b"sda1", b"sd"));
    assert!(!starts_with_bytes(b"s", b"sd"));
    assert!(ends_with_bytes(b"../../sda", b"/sda"));
    assert!(!ends_with_bytes(b"../../sda1", b"/sda"));
    assert!(contains_bytes(b"pci-ata-3", b"ata"));
    assert!(!contains_bytes(b"pci-usb-3", b"ata"));
}

#[test]
fn find_reports_the_first_occurrence() {
    assert_eq!(find_bytes(b"xxataxxata", b"ata"), Some(2));
    assert_eq!(find_bytes(b"xyz", b"ata"), None);
}

#[test]
fn whitespace_split_drops_empty_tokens() {
    let toks = split_ws_vec(b"  a\tbb \n c  ");
    assert_eq!(toks, vec![b"a".to_vec(), b"bb".to_vec(), b"c".to_vec()]);
}

#[test]
fn newline_split_keeps_empty_segments() {
    let lines = split_nl_vec(b"a\n\nb\n");
    assert_eq!(lines, vec![b"a".to_vec(), b"".to_vec(), b"b".to_vec(), b"".to_vec()]);
}

#[test]
fn trimming_strips_both_ends() {
    assert_eq!(trim_bytes(b"  1\n"), b"1".to_vec());
    assert_eq!(trim_bytes(b"\t\n "), Vec::<u8>::new());
    assert_eq!(trim_bytes(b"x"), b"x".to_vec());
}
