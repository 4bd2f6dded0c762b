use soketto::util::{as_hex, bytes_eq, eq_ignore_ascii_case, is_utf8, split_str, str_eq, trim_matches};

#[test]
fn hex_dump() {
    assert_eq!(as_hex(&[]), "buf: [ ]");
    assert_eq!(as_hex(&[0x00, 0xab, 0x7f, 0x10]), "buf: [ 0x00 0xab 0x7f 0x10 ]");
}

#[test]
fn byte_comparisons() {
    assert!(bytes_eq(b"abc", b"abc"));
    assert!(!bytes_eq(b"abc", b"abd"));
    assert!(eq_ignore_ascii_case(b"WebSocket", b"websocket"));
    assert!(!eq_ignore_ascii_case(b"websocket!", b"websocket"));
    assert!(str_eq("GET", "GET"));
    assert!(!str_eq("GET", "get"));
}

#[test]
fn utf8_checks() {
    assert!(is_utf8("grüße".as_bytes()));
    assert!(!is_utf8(&[0xc3]));
}

#[test]
fn splitting_and_trimming() {
    assert_eq!(split_str("a, b,,c", b','), vec!["a", " b", "", "c"]);
    assert_eq!(split_str("", b','), vec![""]);
    assert_eq!(trim_matches("\"quoted\"", b'"'), "quoted");
    assert_eq!(trim_matches("xxaxx", b'x'), "a");
}
