use rust_wrd::parse_cursor_report;

#[test]
fn report_gives_rows_and_columns() {
    assert_eq!(parse_cursor_report(b"\x1b[24;80R"), Some((24, 80)));
    assert_eq!(parse_cursor_report(b"\x1b[1;1R"), Some((1, 1)));
    assert_eq!(parse_cursor_report(b"\x1b[65535;0R"), Some((65535, 0)));
}

#[test]
fn report_needs_its_frame() {
    assert_eq!(parse_cursor_report(b"[24;80R"), None);
    assert_eq!(parse_cursor_report(b"\x1b24;80R"), None);
    assert_eq!(parse_cursor_report(b"\x1b[24;80"), None);
    assert_eq!(parse_cursor_report(b""), None);
}

#[test]
fn report_needs_two_numbers() {
    assert_eq!(parse_cursor_report(b"\x1b[2480R"), None);
    assert_eq!(parse_cursor_report(b"\x1b[;80R"), None);
    assert_eq!(parse_cursor_report(b"\x1b[24;R"), None);
    assert_eq!(parse_cursor_report(b"\x1b[24;8;0R"), None);
    assert_eq!(parse_cursor_report(b"\x1b[2a;80R"), None);
}

#[test]
fn report_numbers_must_fit() {
    assert_eq!(parse_cursor_report(b"\x1b[65536;80R"), None);
    assert_eq!(parse_cursor_report(b"\x1b[24;99999999999999999999R"), None);
}
