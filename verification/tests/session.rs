//! Sessions: initialization, capability replies, and the drain before a hand-over.

use uncurses::ansi::kitty::KittyKeyboardFlags;
use uncurses::ansi::mode::{Mode, ModeSetting};
use uncurses::color::Profile;
use uncurses::event::{Event, ModifyOtherKeysMode};
use uncurses::layout::{Size, Winsize};
use uncurses::screen::session::DrainStage;
use uncurses::screen::{Host, MouseTracking, Optimizations, Screen, ScreenOptions};

const MODE_QUERIES: &str = "\x1b[?2026$p\x1b[?2027$p\x1b[?2048$p\x1b[?2033$p\x1b[?1000$p\x1b[?1002$p\x1b[?1003$p\x1b[?1006$p\x1b[?1016$p";

fn host(program: Option<&str>, version: Option<&str>) -> Host {
    Host {
        term_program: program.map(|p| p.to_string()),
        term_program_version: version.map(|v| v.to_string()),
        supports_decst8c: false,
    }
}

fn screen_on(h: Host, profile: Profile) -> Screen {
    Screen::new(Size::new(20, 4), profile, Optimizations::empty(), h)
}

fn screen() -> Screen {
    screen_on(host(None, None), Profile::TrueColor)
}

fn window(col: u16, row: u16) -> Option<Winsize> {
    Some(Winsize { row, col, xpixel: 0, ypixel: 0 })
}

fn text(out: Vec<u8>) -> String {
    String::from_utf8(out).unwrap()
}

fn available(mode: Mode) -> Event {
    Event::ModeReport { mode, setting: ModeSetting::Reset }
}

fn attributes(attrs: &[u32]) -> Event {
    Event::PrimaryDeviceAttributes(attrs.iter().map(|&a| Some(a)).collect())
}

#[test]
fn a_session_begins_with_queries() {
    let mut s = screen();
    s.init(window(80, 24), Profile::TrueColor);
    assert_eq!(s.size(), Size::new(80, 4));
    assert_eq!(s.window_cells(), Some(Size::new(80, 24)));
    assert_eq!(
        text(s.take_output()),
        format!("\x1b[?2004h\x1b[?u{MODE_QUERIES}\x1b[>q\x1b[?4m\x1b[c")
    );
}

#[test]
fn fewer_colors_ask_for_more() {
    let mut s = screen();
    s.init(None, Profile::Ansi256);
    assert_eq!(s.size(), Size::new(20, 4));
    assert_eq!(s.color_profile(), Profile::Ansi256);
    assert_eq!(
        text(s.take_output()),
        format!(
            "\x1b[?2004h\x1b[?u{MODE_QUERIES}\x1b[>q\x1b[?4m\x1bP+q524742\x1b\\\x1bP+q5463\x1b\\\x1b[c"
        )
    );
}

#[test]
fn a_session_without_queries() {
    let mut s = screen();
    let options = ScreenOptions {
        query_capabilities: false,
        bracketed_paste: false,
        ..ScreenOptions::default()
    };
    s.init_with(options, None, Profile::Ansi);
    assert_eq!(text(s.take_output()), "");
    assert!(!s.begin_drain());
}

#[test]
fn tab_stops_are_reset_where_they_matter() {
    let options = || ScreenOptions {
        query_capabilities: false,
        bracketed_paste: false,
        ..ScreenOptions::default()
    };
    let mut s = Screen::new(
        Size::new(20, 1),
        Profile::TrueColor,
        Optimizations::tabs(),
        Host { supports_decst8c: true, ..host(None, None) },
    );
    s.init_with(options(), None, Profile::TrueColor);
    assert_eq!(text(s.take_output()), "\x1b[?5W");
    let mut s = Screen::new(
        Size::new(20, 1),
        Profile::TrueColor,
        Optimizations::tabs(),
        host(None, None),
    );
    s.init_with(options(), None, Profile::TrueColor);
    assert_eq!(text(s.take_output()), "\x1b[3g\r\x1b[8C\x1bH\x1b[8C\x1bH\r");
}

#[test]
fn apple_terminal_is_not_asked() {
    let mut s = screen_on(host(Some("Apple_Terminal"), Some("470.1")), Profile::Ansi256);
    s.init(None, Profile::Ansi256);
    assert_eq!(text(s.take_output()), "\x1b[?2004h\x1b[?u\x1b[c");
    let caps = s.capabilities();
    assert!(caps.mouse_normal && caps.mouse_button && caps.mouse_any && caps.mouse_sgr);
    assert!(!caps.mouse_sgr_pixel);
    assert!(caps.true_color);
    assert_eq!(s.color_profile(), Profile::TrueColor);
}

#[test]
fn apple_terminal_versions() {
    for (version, expected) in [
        (Some("470"), Some(470)),
        (Some("470.1"), Some(470)),
        (Some(" 455 .2"), Some(455)),
        (Some("\u{a0}7\u{3000}"), Some(7)),
        (Some("+12"), Some(12)),
        (Some("4294967295"), Some(4294967295)),
        (Some("4294967296"), None),
        (Some("-1"), None),
        (Some("+"), None),
        (Some(""), None),
        (Some(".5"), None),
        (Some("4a"), None),
        (None, None),
    ] {
        let h = host(Some("Apple_Terminal"), version);
        assert_eq!(h.apple_terminal_version(), expected, "{version:?}");
    }
    assert!(host(Some("Apple_Terminal"), None).is_apple_terminal());
    assert!(!host(Some("apple_terminal"), None).is_apple_terminal());
    assert!(!host(None, None).is_apple_terminal());
    let mut s = screen_on(host(Some("Apple_Terminal"), Some("469")), Profile::Ansi256);
    s.init(None, Profile::Ansi256);
    assert!(!s.capabilities().true_color);
    assert_eq!(s.color_profile(), Profile::Ansi256);
}

#[test]
fn mode_reports_show_capabilities() {
    let mut s = screen();
    s.observe_event(&Event::ModeReport {
        mode: Mode::mouse_sgr_pixel(),
        setting: ModeSetting::PermanentlyReset,
    });
    s.observe_event(&Event::ModeReport {
        mode: Mode::mouse_any(),
        setting: ModeSetting::NotRecognized,
    });
    assert!(!s.capabilities().mouse_sgr_pixel && !s.capabilities().mouse_any);
    for mode in [
        Mode::in_band_resize(),
        Mode::visibility_reports(),
        Mode::mouse_normal(),
        Mode::mouse_button(),
        Mode::mouse_any(),
        Mode::mouse_sgr(),
        Mode::mouse_sgr_pixel(),
    ] {
        s.observe_event(&available(mode));
    }
    assert_eq!(text(s.take_output()), "");
    let caps = s.capabilities();
    assert!(caps.in_band_resize && caps.visibility_reports && caps.mouse_normal);
    assert!(caps.mouse_button && caps.mouse_any && caps.mouse_sgr && caps.mouse_sgr_pixel);
    assert!(!caps.synchronized_output && !caps.grapheme_clusters);
}

#[test]
fn some_capabilities_are_used_at_once() {
    let mut s = screen();
    s.observe_event(&available(Mode::synchronized_output()));
    s.observe_event(&available(Mode::unicode_core()));
    assert!(s.capabilities().synchronized_output && s.capabilities().grapheme_clusters);
    assert!(s.grapheme_clusters());
    assert_eq!(text(s.take_output()), "\x1b[?2027h");
    s.invalidate();
    s.render();
    assert!(text(s.take_output()).starts_with("\x1b[?2026h"));
}

#[test]
fn true_color_is_detected() {
    let mut s = screen_on(host(None, None), Profile::Ansi);
    s.observe_event(&Event::Termcap { recognized: false, payload: "RGB".to_string() });
    s.observe_event(&Event::Termcap { recognized: true, payload: "TN".to_string() });
    assert_eq!(s.color_profile(), Profile::Ansi);
    s.observe_event(&Event::Termcap { recognized: true, payload: "xTc=".to_string() });
    assert_eq!(s.color_profile(), Profile::TrueColor);
    assert!(s.capabilities().true_color);
}

#[test]
fn the_terminal_name_is_kept() {
    let mut s = screen();
    assert_eq!(s.terminal_name(), None);
    s.observe_event(&Event::TerminalName("XTerm(380)".to_string()));
    assert_eq!(s.terminal_name(), Some("XTerm(380)"));
}

#[test]
fn defaults_follow_the_last_reply_once() {
    let mut s = screen();
    let options = ScreenOptions {
        mouse: Some(MouseTracking::motion()),
        track_origin: false,
        ..ScreenOptions::default()
    };
    s.init_with(options, None, Profile::TrueColor);
    s.take_output();
    s.observe_event(&Event::KittyKeyboardEnhancements(KittyKeyboardFlags::empty()));
    s.observe_event(&available(Mode::in_band_resize()));
    assert!(s.handle_resize());
    s.observe_event(&attributes(&[62, 4, 52]));
    assert_eq!(
        text(s.take_output()),
        "\x1b[?2048h\x1b[=1;1u\x1b[?9;1000;1002;1003;1006;1016l\x1b[?1000;1002;1003;1006h"
    );
    assert!(!s.handle_resize());
    let caps = s.capabilities();
    assert!(caps.kitty_keyboard && caps.sixel && caps.clipboard);
    s.observe_event(&attributes(&[62]));
    assert_eq!(text(s.take_output()), "");
    assert!(s.capabilities().sixel && s.capabilities().clipboard);
}

#[test]
fn modify_other_keys_stand_in_for_kitty() {
    let mut s = screen();
    s.init(None, Profile::TrueColor);
    s.take_output();
    s.observe_event(&Event::ModifyOtherKeys(ModifyOtherKeysMode::Disabled));
    s.observe_event(&attributes(&[]));
    assert_eq!(text(s.take_output()), "\x1b[>4;2m");
}

#[test]
fn sizes_are_kept() {
    let mut s = screen();
    s.observe_event(&Event::Resize(Winsize { row: 30, col: 100, xpixel: 800, ypixel: 480 }));
    assert_eq!(s.window_cells(), Some(Size::new(100, 30)));
    assert_eq!(s.window_pixels(), Some(Size::new(800, 480)));
    assert_eq!(s.size(), Size::new(20, 4));
    assert_eq!(text(s.take_output()), "");
    let options = ScreenOptions {
        request_pixel_size_on_resize: true,
        query_capabilities: false,
        bracketed_paste: false,
        ..ScreenOptions::default()
    };
    s.init_with(options, window(90, 30), Profile::TrueColor);
    assert_eq!(text(s.take_output()), "\x1b[14t");
    s.enable_in_band_resize();
    s.take_output();
    s.observe_event(&Event::Resize(Winsize { row: 31, col: 90, xpixel: 0, ypixel: 0 }));
    assert_eq!(text(s.take_output()), "");
}

#[test]
fn refitting_depends_on_the_screen_buffer() {
    let mut s = screen();
    s.autoresize(window(50, 40));
    assert_eq!(s.size(), Size::new(50, 4));
    s.enter_alt_screen();
    s.autoresize(window(60, 40));
    assert_eq!(s.size(), Size::new(60, 40));
    s.autoresize(None);
    assert_eq!(s.size(), Size::new(60, 40));
}

#[test]
fn returning_redraws_everything() {
    let mut s = screen();
    s.hide_cursor();
    s.render();
    s.take_output();
    s.pause();
    s.resume(window(30, 10));
    assert_eq!(s.size(), Size::new(30, 4));
    s.take_output();
    s.render();
    assert!(text(s.take_output()).contains("\x1b[J"));
}

#[test]
fn events_are_read_in_order() {
    let mut s = screen();
    assert_eq!(s.try_read_event(), None);
    s.queue_event(Event::FocusIn);
    s.queue_event(Event::FocusOut);
    let first = s.try_read_event().unwrap();
    assert_eq!(first, Event::FocusIn);
    s.unread_event(first);
    s.unread_event(Event::PasteStart);
    assert_eq!(s.try_read_event(), Some(Event::PasteStart));
    assert_eq!(s.try_read_event(), Some(Event::FocusIn));
    assert_eq!(s.try_read_event(), Some(Event::FocusOut));
    assert_eq!(s.try_read_event(), None);
}

#[test]
fn a_drain_reads_until_the_last_reply() {
    let mut s = screen();
    s.init(None, Profile::TrueColor);
    assert!(s.begin_drain());
    assert_eq!(
        s.next_wait(DrainStage::Replies, 100),
        (DrainStage::Replies, Some(200))
    );
    s.queue_event(Event::KittyKeyboardEnhancements(KittyKeyboardFlags::empty()));
    assert_eq!(s.finish_wait(DrainStage::Replies, true), DrainStage::Replies);
    assert_eq!(
        s.next_wait(DrainStage::Replies, 120),
        (DrainStage::Replies, Some(180))
    );
    s.queue_event(attributes(&[1]));
    s.queue_event(Event::FocusIn);
    assert_eq!(s.finish_wait(DrainStage::Replies, true), DrainStage::Replies);
    assert_eq!(s.next_wait(DrainStage::Replies, 130), (DrainStage::Done, None));
    // What came after the last reply is left to be read.
    assert_eq!(s.try_read_event(), Some(Event::FocusIn));
    assert!(!s.begin_drain());
}

#[test]
fn a_drain_waits_for_the_size_report() {
    let mut s = screen();
    s.init(None, Profile::TrueColor);
    s.observe_event(&available(Mode::in_band_resize()));
    assert!(s.begin_drain());
    s.queue_event(attributes(&[1]));
    assert_eq!(s.finish_wait(DrainStage::Replies, true), DrainStage::Replies);
    assert_eq!(
        s.next_wait(DrainStage::Replies, 10),
        (DrainStage::Echo, Some(50))
    );
    assert_eq!(s.finish_wait(DrainStage::Echo, true), DrainStage::Echo);
    assert_eq!(s.next_wait(DrainStage::Echo, 280), (DrainStage::Echo, Some(20)));
    s.queue_event(Event::Resize(Winsize { row: 9, col: 9, xpixel: 1, ypixel: 1 }));
    assert_eq!(s.next_wait(DrainStage::Echo, 290), (DrainStage::Done, None));
    assert_eq!(s.window_cells(), Some(Size::new(9, 9)));
    assert_eq!(s.try_read_event(), None);
}

#[test]
fn a_drain_gives_up_in_time() {
    let mut s = screen();
    s.init(None, Profile::TrueColor);
    assert!(s.begin_drain());
    assert_eq!(s.next_wait(DrainStage::Replies, 300), (DrainStage::Done, None));
    assert_eq!(s.finish_wait(DrainStage::Replies, false), DrainStage::Settled);
    assert_eq!(s.next_wait(DrainStage::Settled, 5), (DrainStage::Done, None));
    assert_eq!(s.finish_wait(DrainStage::Echo, false), DrainStage::Done);
    assert_eq!(s.next_wait(DrainStage::Done, 0), (DrainStage::Done, None));
    assert!(!s.begin_drain());
}

#[test]
fn nothing_to_drain_after_the_last_reply() {
    let mut s = screen();
    assert!(!s.begin_drain());
    s.init(None, Profile::TrueColor);
    s.observe_event(&attributes(&[1]));
    assert!(!s.begin_drain());
}
