//! How the decoder deals with unfinished, malformed and unknown input.

use uncurses::ansi::mode::{Mode, ModeSetting};
use uncurses::color::Color;
use uncurses::event::{
    ClipboardSelection, Decoder, DecoderFlags, Event, Key, KeyCode, KeyModifiers, Mouse,
    MouseButton,
};

fn decode(data: &[u8]) -> Vec<Event> {
    Decoder::new(DecoderFlags::empty()).parse(data)
}

fn press(code: KeyCode, modifiers: KeyModifiers) -> Event {
    Event::KeyPress(Key::of(code, modifiers))
}

#[test]
fn parse_one_asks_for_more_input() {
    let mut d = Decoder::new(DecoderFlags::empty());
    assert_eq!(d.parse_one(b""), (0, None));
    assert_eq!(d.parse_one(b"\x1b"), (0, None));
    assert_eq!(d.parse_one(b"\x1b[1;"), (0, None));
    assert_eq!(d.parse_one(b"\xe8\xaa"), (0, None));
    assert_eq!(d.parse_one(b"\x1b]0;abc"), (0, None));
}

#[test]
fn parse_one_hands_out_queued_events_first() {
    let mut d = Decoder::new(DecoderFlags::empty());
    let data = b"\x1b[65;30;97;1;0;3_b";
    let a = || press(KeyCode::Char('a'), KeyModifiers::empty());
    let (n, first) = d.parse_one(data);
    assert_eq!(n, data.len() - 1);
    assert_eq!(first, Some(a()));
    assert_eq!(d.parse_one(b"b"), (0, Some(a())));
    assert_eq!(d.parse_one(b"b"), (0, Some(a())));
    assert_eq!(
        d.parse_one(b"b"),
        (1, Some(press(KeyCode::Char('b'), KeyModifiers::empty())))
    );
}

#[test]
fn parse_one_streams_a_paste() {
    let mut d = Decoder::new(DecoderFlags::empty());
    assert_eq!(d.parse_one(b"\x1b[200~abc"), (6, Some(Event::PasteStart)));
    assert!(d.in_paste());
    assert_eq!(d.parse_one(b"abc\x1b[20"), (3, Some(Event::PasteChunk(b"abc".to_vec()))));
    assert_eq!(d.parse_one(b"\x1b[20"), (0, None));
    assert_eq!(d.parse_one(b"\x1b[201~d"), (6, Some(Event::PasteEnd)));
    assert!(!d.in_paste());
}

#[test]
fn an_expired_escape_is_a_key() {
    let d = Decoder::new(DecoderFlags::empty());
    assert_eq!(
        d.expire_leading(0x1b),
        Some(press(KeyCode::Escape, KeyModifiers::empty()))
    );
    let d = Decoder::new(DecoderFlags::ctrl_open_bracket());
    assert_eq!(
        d.expire_leading(0x1b),
        Some(press(KeyCode::Char('['), KeyModifiers::ctrl()))
    );
}

#[test]
fn an_expired_introducer_is_a_control_key() {
    let d = Decoder::new(DecoderFlags::empty());
    assert_eq!(
        d.expire_leading(0x90),
        Some(press(KeyCode::Char('p'), KeyModifiers::ctrl() | KeyModifiers::alt()))
    );
    assert_eq!(d.expire_leading(b'a'), None);
    assert_eq!(d.expire_leading(0x9c), None);
}

#[test]
fn expiry_resolves_two_escapes() {
    let mut d = Decoder::new(DecoderFlags::empty());
    d.set_expired(true);
    assert_eq!(
        d.parse_one(b"\x1b\x1b"),
        (2, Some(press(KeyCode::Escape, KeyModifiers::alt())))
    );
    d.set_expired(false);
    assert_eq!(d.parse_one(b"\x1b\x1b"), (0, None));
}

#[test]
fn ending_a_paste_by_hand() {
    let mut d = Decoder::new(DecoderFlags::empty());
    assert_eq!(d.end_paste(), None);
    d.parse(b"\x1b[200~");
    assert_eq!(d.end_paste(), Some(Event::PasteEnd));
    assert!(!d.in_paste());
    assert_eq!(d.parse(b"k"), vec![press(KeyCode::Char('k'), KeyModifiers::empty())]);
}

#[test]
fn malformed_utf8_does_not_stop_decoding() {
    let events = decode(b"\xff\xc3(x");
    assert_eq!(
        events.last(),
        Some(&press(KeyCode::Char('x'), KeyModifiers::empty()))
    );
}

#[test]
fn lossy_text_replaces_malformed_bytes() {
    // XTVERSION with a byte that is not UTF-8.
    match &decode(b"\x1bP>|A\xffB\x1b\\")[0] {
        Event::TerminalName(name) => assert_eq!(name, "A\u{fffd}B"),
        other => panic!("expected TerminalName, got {other:?}"),
    }
    match &decode("\x1bP>|Té(1)\x1b\\".as_bytes())[0] {
        Event::TerminalName(name) => assert_eq!(name, "Té(1)"),
        other => panic!("expected TerminalName, got {other:?}"),
    }
}

#[test]
fn unknown_sequences_are_kept() {
    assert_eq!(decode(b"\x1b[99;99q"), vec![Event::UnknownCsi(b"99;99q".to_vec())]);
    assert_eq!(decode(b"\x9b99;99q"), vec![Event::UnknownCsi(b"99;99q".to_vec())]);
    assert_eq!(decode(b"\x1b[?997;9n"), vec![Event::UnknownCsi(b"?997;9n".to_vec())]);
    let mut d = Decoder::new(DecoderFlags::empty());
    assert_eq!(
        d.parse_one(b"\x1b[?997;9n"),
        (9, Some(Event::UnknownCsi(b"?997;9n".to_vec())))
    );
    // Every intermediate is kept, in order.
    assert_eq!(decode(b"\x1b[>5 !q"), vec![Event::UnknownCsi(b">5 !q".to_vec())]);
    // An unknown SS3 sequence keeps its introducer.
    assert_eq!(decode(b"\x1bO5z"), vec![Event::UnknownSs3(b"\x1bO5z".to_vec())]);
    assert_eq!(decode(b"\x8f5z"), vec![Event::UnknownSs3(b"\x8f5z".to_vec())]);
    assert_eq!(decode(b"\x1b]777;x\x07"), vec![Event::UnknownOsc(b"777;x".to_vec())]);
}

#[test]
fn surrogates_are_not_characters() {
    // A lone low surrogate carries no character.
    let events = decode(b"\x1b[0;0;56832;1;0;1_");
    assert!(!events.iter().any(|e| matches!(e, Event::KeyPress(k) if matches!(k.code, KeyCode::Char(_)))));
    // A value beyond the last character is not a key of its own.
    let events = decode(b"\x1b[1114112u");
    assert!(!events.iter().any(|e| matches!(e, Event::KeyPress(k) if matches!(k.code, KeyCode::Char(_)))));
}

#[test]
fn flags_change_ambiguous_keys() {
    let parse = |flags: DecoderFlags, data: &[u8]| Decoder::new(flags).parse(data);
    assert_eq!(
        parse(DecoderFlags::ctrl_i() | DecoderFlags::ctrl_m(), b"\t\r"),
        vec![
            press(KeyCode::Char('i'), KeyModifiers::ctrl()),
            press(KeyCode::Char('m'), KeyModifiers::ctrl()),
        ]
    );
    assert_eq!(
        parse(DecoderFlags::empty(), b"\t\r\n\x7f\x00"),
        vec![
            press(KeyCode::Tab, KeyModifiers::empty()),
            press(KeyCode::Enter, KeyModifiers::empty()),
            press(KeyCode::Enter, KeyModifiers::empty()),
            press(KeyCode::Backspace, KeyModifiers::empty()),
            press(KeyCode::Space, KeyModifiers::ctrl()),
        ]
    );
}

#[test]
fn utf8_mouse_reads_code_points() {
    let mut d = Decoder::new(DecoderFlags::empty());
    d.set_utf8_mouse(true);
    // Column 223 is encoded as the character U+0100.
    let events = d.parse("\x1b[M \u{100}!".as_bytes());
    assert_eq!(
        events,
        vec![Event::MouseClick(Mouse::new(
            223,
            0,
            MouseButton::Left,
            KeyModifiers::empty()
        ))]
    );
}

#[test]
fn keys_and_mice_are_borrowed_from_events() {
    let key = press(KeyCode::F(2), KeyModifiers::empty());
    assert_eq!(key.as_key().map(|k| k.code), Some(KeyCode::F(2)));
    assert_eq!(key.as_mouse(), None);
    let events = decode(b"\x1b[<65;3;4M");
    assert_eq!(
        events[0].as_mouse(),
        Some(&Mouse::new(2, 3, MouseButton::WheelDown, KeyModifiers::empty()))
    );
    assert!(events[0].as_key().is_none());
    assert!(matches!(events[0], Event::MouseWheel(_)));
}

#[test]
fn color_and_clipboard_replies() {
    assert_eq!(
        decode(b"\x1b]12;rgb:1212/3434/5656\x1b\\"),
        vec![Event::CursorColor(Color::Rgb(0x12, 0x34, 0x56))]
    );
    assert_eq!(
        decode(b"\x1b]52;p;aGk=\x07"),
        vec![Event::Clipboard {
            selection: ClipboardSelection::Primary,
            content: "aGk=".to_string()
        }]
    );
}

#[test]
fn ansi_mode_reports_have_no_private_marker() {
    let report = Event::ModeReport { mode: Mode::insert(), setting: ModeSetting::Reset };
    let mut d = Decoder::new(DecoderFlags::empty());
    assert_eq!(d.parse_one(b"\x1b[4;2$y"), (7, Some(report.clone())));
    // The report may come in pieces.
    let mut d = Decoder::new(DecoderFlags::empty());
    assert_eq!(d.parse(b"\x1b[4;2$"), vec![]);
    assert_eq!(d.parse(b"y"), vec![report]);
}

#[test]
fn one_parameter_may_end_in_a_modifier_suffix() {
    let shift = KeyModifiers::shift();
    let mut d = Decoder::new(DecoderFlags::empty());
    assert_eq!(d.parse_one(b"\x1b[3$y"), (4, Some(press(KeyCode::Delete, shift))));
    // In a sequence with several parameters it is an intermediate.
    assert_eq!(decode(b"\x1b[3;2$z"), vec![Event::UnknownCsi(b"3;2$z".to_vec())]);
}

#[test]
fn events_can_be_cloned() {
    for data in [
        &b"\x1b[65;30;97;1;0;3_\x1b[1;2R"[..],
        b"\x1b_Ga=T,i=1;AA\x1b\\\x1b[?62;4c\x1b]52;c;AA\x07",
        b"\x1b[200~body\x1b[201~\x1b[99;99q",
    ] {
        let events = decode(data);
        assert!(!events.is_empty());
        assert_eq!(events.clone(), events);
    }
    let group = Event::Multi(vec![Event::FocusIn, Event::Multi(vec![Event::PasteEnd])]);
    assert_eq!(group.clone(), group);
}
