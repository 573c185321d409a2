//! Status requests and reports.

use uncurses::ansi::status::{write_cpr, write_decxcpr, write_dsr_request};

#[test]
fn test_cpr() {
    let mut buf = Vec::new();
    write_cpr(&mut buf, 10, 20);
    assert_eq!(buf, b"\x1b[10;20R");
}

#[test]
fn test_decxcpr() {
    let mut buf = Vec::new();
    write_decxcpr(&mut buf, 5, 6, 0);
    write_decxcpr(&mut buf, 5, 6, 2);
    assert_eq!(buf, b"\x1b[?5;6R\x1b[?5;6;2R");
}

#[test]
fn test_dsr_request() {
    let mut buf = Vec::new();
    write_dsr_request(&mut buf, false, 5);
    write_dsr_request(&mut buf, true, 996);
    assert_eq!(buf, b"\x1b[5n\x1b[?996n");
}
