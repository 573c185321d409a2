//! Mode sequences and settings.

use uncurses::ansi::mode::{
    write_report_mode, write_request_mode, write_reset_mode, write_set_mode, Mode, ModeSetting,
};

#[test]
fn test_set_dec_mode() {
    let mut buf = Vec::new();
    write_set_mode(&mut buf, &[Mode::alt_screen_save_cursor()]);
    assert_eq!(buf, b"\x1b[?1049h");
}

#[test]
fn test_reset_dec_mode() {
    let mut buf = Vec::new();
    write_reset_mode(&mut buf, &[Mode::alt_screen_save_cursor()]);
    assert_eq!(buf, b"\x1b[?1049l");
}

#[test]
fn test_set_multiple_dec_modes() {
    let mut buf = Vec::new();
    write_set_mode(&mut buf, &[Mode::mouse_any(), Mode::mouse_sgr()]);
    assert_eq!(buf, b"\x1b[?1003;1006h");
}

#[test]
fn test_mode_setting_roundtrip() {
    for s in [
        ModeSetting::NotRecognized,
        ModeSetting::CurrentlySet,
        ModeSetting::Reset,
        ModeSetting::PermanentlySet,
        ModeSetting::PermanentlyReset,
    ] {
        assert_eq!(ModeSetting::from_value(s.value()), s);
    }
    assert!(ModeSetting::CurrentlySet.is_set());
    assert!(ModeSetting::PermanentlySet.is_set());
    assert!(!ModeSetting::Reset.is_set());
    assert!(ModeSetting::Reset.is_reset());
    assert!(ModeSetting::PermanentlyReset.is_reset());
    // A recognized mode is anything other than NotRecognized.
    assert!(!ModeSetting::NotRecognized.is_recognized());
    for s in [
        ModeSetting::CurrentlySet,
        ModeSetting::Reset,
        ModeSetting::PermanentlySet,
        ModeSetting::PermanentlyReset,
    ] {
        assert!(s.is_recognized());
    }
    // Permanent states are the two that cannot be toggled.
    assert!(ModeSetting::PermanentlySet.is_permanent());
    assert!(ModeSetting::PermanentlyReset.is_permanent());
    assert!(!ModeSetting::CurrentlySet.is_permanent());
    assert!(!ModeSetting::Reset.is_permanent());
    assert!(!ModeSetting::NotRecognized.is_permanent());
    // A mode is usable unless it is unrecognized or permanently reset.
    assert!(ModeSetting::CurrentlySet.is_available());
    assert!(ModeSetting::Reset.is_available());
    assert!(ModeSetting::PermanentlySet.is_available());
    assert!(!ModeSetting::PermanentlyReset.is_available());
    assert!(!ModeSetting::NotRecognized.is_available());
}

#[test]
fn test_mode_setting_display() {
    assert_eq!(ModeSetting::NotRecognized.label(), "not recognized");
    assert_eq!(ModeSetting::CurrentlySet.label(), "set");
    assert_eq!(ModeSetting::Reset.label(), "reset");
    assert_eq!(ModeSetting::PermanentlySet.label(), "permanently set");
    assert_eq!(
        ModeSetting::PermanentlyReset.label(),
        "permanently reset"
    );
}

#[test]
fn test_write_report_mode_dec() {
    let mut buf = Vec::new();
    write_report_mode(&mut buf, Mode::alt_screen_save_cursor(), ModeSetting::CurrentlySet);
    assert_eq!(buf, b"\x1b[?1049;1$y");
}

#[test]
fn test_write_report_mode_ansi() {
    let mut buf = Vec::new();
    write_report_mode(&mut buf, Mode::insert(), ModeSetting::Reset);
    assert_eq!(buf, b"\x1b[4;2$y");
}

#[test]
fn test_request_mode_dec() {
    let mut buf = Vec::new();
    write_request_mode(&mut buf, Mode::alt_screen_save_cursor());
    assert_eq!(buf, b"\x1b[?1049$p");
}

#[test]
fn test_new_mode_constants() {
    assert_eq!(Mode::keyboard_action(), Mode::Ansi(2));
    assert_eq!(Mode::bidi_support(), Mode::Ansi(8));
    assert_eq!(Mode::send_receive(), Mode::Ansi(12));
    assert_eq!(Mode::line_feed_new_line(), Mode::Ansi(20));
    assert_eq!(Mode::mouse_utf8(), Mode::Dec(1005));
    assert_eq!(Mode::mouse_urxvt(), Mode::Dec(1015));
    assert_eq!(Mode::win32_input(), Mode::Dec(9001));
    assert_eq!(Mode::alt_screen_legacy(), Mode::Dec(47));
    assert_eq!(Mode::light_dark(), Mode::Dec(2031));
    assert_eq!(Mode::visibility_reports(), Mode::Dec(2033));
}
