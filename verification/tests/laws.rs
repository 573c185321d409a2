//! The laws of the decoder and of the encoders, on concrete values.

use std::collections::hash_map::DefaultHasher;
use std::collections::HashMap;
use std::hash::{Hash, Hasher};
use uncurses::ansi::kitty::KittyKeyboardFlags;
use uncurses::ansi::mode::{
    write_report_mode, write_reset_mode, write_set_mode, Mode, ModeSetting,
};
use uncurses::ansi::osc::write_base64;
use uncurses::ansi::status::{write_cpr, write_light_dark_report, write_visibility_report};
use uncurses::event::mouse::mouse_pixel_to_cell;
use uncurses::event::{
    ColorScheme, Decoder, DecoderFlags, Event, Key, KeyCode, KeyModifiers, Mouse, MouseButton,
    Visibility,
};
use uncurses::layout::Position;

const SESSION: &[u8] = b"a\x1b[1;5A\x1b]10;rgb:ffff/0000/0000\x07\x1b[<0;3;4M\xd0\xb9\x1b[200~x\x1by\x1b[201~\x1bOP\x9bI\x1b[?62;4c";

fn decode(data: &[u8]) -> Vec<Event> {
    Decoder::new(DecoderFlags::empty()).parse(data)
}

fn joined(events: Vec<Event>) -> Vec<Event> {
    let mut out: Vec<Event> = Vec::new();
    for e in events {
        if let Event::PasteChunk(b) = &e {
            if let Some(Event::PasteChunk(last)) = out.last_mut() {
                last.extend_from_slice(b);
                continue;
            }
        }
        out.push(e);
    }
    out
}

fn hash_of(k: &Key) -> u64 {
    let mut h = DefaultHasher::new();
    k.hash(&mut h);
    h.finish()
}

#[test]
fn chunking_does_not_matter_to_parse() {
    let whole = joined(decode(SESSION));
    for cut in 0..=SESSION.len() {
        let mut d = Decoder::new(DecoderFlags::empty());
        let mut events = d.parse(&SESSION[..cut]);
        events.extend(d.parse(&SESSION[cut..]));
        assert_eq!(joined(events), whole, "cut at {cut}");
    }
}

#[test]
fn chunking_does_not_matter_to_parse_one() {
    let mut d = Decoder::new(DecoderFlags::empty());
    let mut buf: Vec<u8> = Vec::new();
    let mut events = Vec::new();
    for &b in SESSION {
        buf.push(b);
        loop {
            let (n, e) = d.parse_one(&buf);
            buf.drain(..n);
            match e {
                Some(e) => events.push(e),
                None => {
                    if n == 0 {
                        break;
                    }
                }
            }
        }
    }
    assert!(buf.is_empty());
    assert_eq!(joined(events), joined(decode(SESSION)));
}

#[test]
fn draining_leaves_nothing_outside_a_paste() {
    let mut d = Decoder::new(DecoderFlags::empty());
    assert!(d.parse(b"\x1b[12;").is_empty());
    assert!(d.has_pending());
    let events = d.drain();
    assert_eq!(
        events,
        vec![
            Event::KeyPress(Key::of(KeyCode::Escape, KeyModifiers::empty())),
            Event::KeyPress(Key::of(KeyCode::Char('['), KeyModifiers::empty())),
            Event::KeyPress(Key::of(KeyCode::Char('1'), KeyModifiers::empty())),
            Event::KeyPress(Key::of(KeyCode::Char('2'), KeyModifiers::empty())),
            Event::KeyPress(Key::of(KeyCode::Char(';'), KeyModifiers::empty())),
        ]
    );
    assert!(!d.has_pending());
    assert!(d.drain().is_empty());
}

#[test]
fn draining_waits_for_the_end_of_a_paste() {
    let mut d = Decoder::new(DecoderFlags::empty());
    assert_eq!(d.parse(b"\x1b[200~\x1b[2"), vec![Event::PasteStart]);
    assert!(d.drain().is_empty());
    assert_eq!(d.parse(b"01~"), vec![Event::PasteEnd]);
}

#[test]
fn paste_content_is_verbatim() {
    let body = b"\x00\x1b[Ax\x9b1m\xff\r\n\x1b]0;t\x07";
    let mut data = b"\x1b[200~".to_vec();
    data.extend_from_slice(body);
    data.extend_from_slice(b"\x1b[201~z");
    let events = joined(decode(&data));
    assert_eq!(
        events,
        vec![
            Event::PasteStart,
            Event::PasteChunk(body.to_vec()),
            Event::PasteEnd,
            Event::KeyPress(Key::of(KeyCode::Char('z'), KeyModifiers::empty())),
        ]
    );
}

#[test]
fn a_buffered_paste_is_verbatim() {
    let mut d = Decoder::new(DecoderFlags::empty());
    assert_eq!(d.parse(b"\x1b[200~"), vec![Event::PasteStart]);
    assert_eq!(
        d.parse(b"a\x9b\x00\r\xff\x1b[201~\x1b[I"),
        vec![
            Event::PasteChunk(b"a\x9b\x00\r\xff".to_vec()),
            Event::PasteEnd,
            Event::FocusIn,
        ]
    );
    // Sequences that the content begins do not take the terminator in.
    for body in [&b"\x1b[5"[..], b"\x1b]x", b"\x1bP", b"\x1b", b"\x1b[201"] {
        let mut d = Decoder::new(DecoderFlags::empty());
        let mut data = b"\x1b[200~".to_vec();
        data.extend_from_slice(body);
        data.extend_from_slice(b"\x1b[201~");
        assert_eq!(
            d.parse(&data),
            vec![Event::PasteStart, Event::PasteChunk(body.to_vec()), Event::PasteEnd]
        );
    }
}

#[test]
fn cursor_reports_round_trip() {
    for (line, column) in [(5u16, 10u16), (1, 17), (65535, 65535)] {
        let mut buf = Vec::new();
        write_cpr(&mut buf, line, column);
        assert_eq!(
            decode(&buf),
            vec![Event::CursorPosition(Position::new(column - 1, line - 1))]
        );
    }
    // On the first line a small column also reads as F3 with modifiers.
    let mut buf = Vec::new();
    write_cpr(&mut buf, 0, 2);
    assert_eq!(buf, b"\x1b[1;2R");
    assert_eq!(
        decode(&buf),
        vec![
            Event::KeyPress(Key::of(KeyCode::F(3), KeyModifiers::shift())),
            Event::CursorPosition(Position::new(1, 0)),
        ]
    );
}

#[test]
fn mode_reports_round_trip() {
    for setting in [
        ModeSetting::NotRecognized,
        ModeSetting::CurrentlySet,
        ModeSetting::Reset,
        ModeSetting::PermanentlySet,
        ModeSetting::PermanentlyReset,
    ] {
        for mode in [Mode::bracketed_paste(), Mode::insert(), Mode::Dec(0), Mode::Ansi(65535)] {
            let mut buf = Vec::new();
            write_report_mode(&mut buf, mode, setting);
            assert_eq!(decode(&buf), vec![Event::ModeReport { mode, setting }]);
        }
    }
}

#[test]
fn visibility_reports_round_trip() {
    for (visible, expected) in [(true, Visibility::Visible), (false, Visibility::Hidden)] {
        let mut buf = Vec::new();
        write_visibility_report(&mut buf, visible);
        assert_eq!(decode(&buf), vec![Event::Visibility(expected)]);
        assert_eq!(expected.is_visible(), visible);
    }
    assert_eq!(Visibility::Visible.label(), "visible");
    assert_eq!(Visibility::Hidden.label(), "hidden");
}

#[test]
fn light_dark_reports_round_trip() {
    for (dark, expected) in [(true, ColorScheme::Dark), (false, ColorScheme::Light)] {
        let mut buf = Vec::new();
        write_light_dark_report(&mut buf, dark);
        assert_eq!(decode(&buf), vec![Event::ColorScheme(expected)]);
    }
}

#[test]
fn key_encodings_agree() {
    for (code, number) in [('a', 97u32), ('ж', 1078), ('+', 43)] {
        let kitty = decode(format!("\x1b[{number};5u").as_bytes());
        let other = decode(format!("\x1b[27;5;{number}~").as_bytes());
        assert_eq!(kitty, other);
        assert_eq!(
            kitty,
            vec![Event::KeyPress(Key::of(KeyCode::Char(code), KeyModifiers::ctrl()))]
        );
    }
    // The modifier parameter is read as sixteen bits.
    assert_eq!(decode(b"\x1b[97;65536u"), decode(b"\x1b[97u"));
}

#[test]
fn bare_characters_agree_with_their_sequences() {
    for b in 0x20u8..0x7f {
        let bare = decode(&[b]);
        let kitty = decode(format!("\x1b[{b};1u").as_bytes());
        assert_eq!(bare, kitty);
        match (&bare[0], &kitty[0]) {
            (Event::KeyPress(x), Event::KeyPress(y)) => assert_eq!(x.text, y.text),
            other => panic!("expected keys, got {other:?}"),
        }
    }
}

#[test]
fn c1_introducers_are_equivalent() {
    let bodies: [(u8, &[u8]); 6] = [
        (b'[', b"1;2A"),
        (b'[', b"?99;99q"),
        (b'O', b"P"),
        (b'P', b"1+r544e\x1b\\"),
        (b']', b"11;rgb:0000/ffff/0000\x1b\\"),
        (b'_', b"Ga=T;AA\x1b\\"),
    ];
    for (c, body) in bodies {
        let mut seven = vec![0x1b, c];
        seven.extend_from_slice(body);
        let mut eight = vec![c + 0x40];
        eight.extend_from_slice(body);
        assert_eq!(decode(&seven), decode(&eight));
    }
    // An unknown SS3 sequence agrees after its introducer.
    assert_eq!(decode(b"\x1bO7z"), vec![Event::UnknownSs3(b"\x1bO7z".to_vec())]);
    assert_eq!(decode(b"\x8f7z"), vec![Event::UnknownSs3(b"\x8f7z".to_vec())]);
}

#[test]
fn characters_round_trip() {
    for c in ['é', 'й', '語', '😀', '\u{a0}'] {
        let text = c.to_string();
        let events = decode(text.as_bytes());
        assert_eq!(events.len(), 1, "{c:?}");
        match &events[0] {
            Event::KeyPress(k) => assert_eq!(k.text.as_deref(), Some(text.as_str())),
            other => panic!("expected a key, got {other:?}"),
        }
    }
}

#[test]
fn surrogate_packets_combine() {
    // U+1F600 is D83D DE00 in UTF-16.
    let events = decode(b"\x1b[0;0;55357;1;0;1_\x1b[0;0;56832;1;0;1_");
    assert_eq!(
        events,
        vec![Event::KeyPress(Key::of(KeyCode::Char('😀'), KeyModifiers::empty()))]
    );
}

#[test]
fn shifted_letters_are_upper_case() {
    let upper = Key::of(KeyCode::Char('Q'), KeyModifiers::empty());
    let shifted = Key::of(KeyCode::Char('q'), KeyModifiers::shift());
    assert_eq!(upper, shifted);
    assert_eq!(upper.code, KeyCode::Char('q'));
    assert_eq!(upper.text.as_deref(), Some("Q"));
    assert_eq!(shifted.text.as_deref(), Some("Q"));
    assert_eq!(upper.shifted_key, Some('Q'));
}

#[test]
fn case_forms_beyond_ascii() {
    let upper = Key::of(KeyCode::Char('Ж'), KeyModifiers::empty());
    assert_eq!(upper.code, KeyCode::Char('ж'));
    assert!(upper.modifiers.contains(KeyModifiers::shift()));
    let shifted = Key::of(KeyCode::Char('ж'), KeyModifiers::shift());
    assert_eq!(shifted.shifted_key, Some('Ж'));
    assert_eq!(upper, shifted);
    // No single-character form: nothing to map to.
    let eszett = Key::of(KeyCode::Char('ß'), KeyModifiers::shift());
    assert_eq!(eszett.shifted_key, None);
    assert_eq!(eszett.code, KeyCode::Char('ß'));
}

#[test]
fn key_hash_follows_identity() {
    let bare = Key::of(KeyCode::Char('A'), KeyModifiers::empty());
    let kitty = match decode(b"\x1b[97:65;2u").remove(0) {
        Event::KeyPress(k) => k,
        other => panic!("expected a key, got {other:?}"),
    };
    assert_eq!(bare, kitty);
    assert_eq!(hash_of(&bare), hash_of(&kitty));
    assert_ne!(hash_of(&bare), hash_of(&Key::of(KeyCode::Up, KeyModifiers::shift())));
    let mut bindings: HashMap<Key, u8> = HashMap::new();
    bindings.insert(bare, 7);
    assert_eq!(bindings.get(&kitty), Some(&7));
}

#[test]
fn functional_keys_round_trip() {
    for (n, code) in [
        (57344u32, KeyCode::Escape),
        (57399, KeyCode::KpDigit(0)),
        (57376, KeyCode::F(13)),
    ] {
        let events = decode(format!("\x1b[{n}u").as_bytes());
        assert_eq!(events, vec![Event::KeyPress(Key::of(code, KeyModifiers::empty()))]);
    }
}

#[test]
fn kitty_flags_round_trip() {
    for bits in 0u8..32 {
        let flags = KittyKeyboardFlags::from_bits_truncate(bits);
        assert_eq!(flags.bits(), bits);
    }
    assert_eq!(KittyKeyboardFlags::from_bits_truncate(0xe3).bits(), 3);
}

#[test]
fn no_modes_write_nothing() {
    let mut buf = Vec::new();
    write_set_mode(&mut buf, &[]);
    write_reset_mode(&mut buf, &[]);
    assert!(buf.is_empty());
}

#[test]
fn modes_are_grouped_by_kind() {
    let mut buf = Vec::new();
    write_set_mode(&mut buf, &[Mode::insert(), Mode::focus(), Mode::line_feed_new_line()]);
    assert_eq!(buf, b"\x1b[?1004h\x1b[4;20h");
}

#[test]
fn pixels_convert_to_cells_of_the_window() {
    let at = |x: u16, y: u16| Mouse::new(x, y, MouseButton::Left, KeyModifiers::empty());
    let m = mouse_pixel_to_cell(at(400, 240), 800, 480, 100, 30);
    assert_eq!((m.x, m.y), (50, 15));
    let m = mouse_pixel_to_cell(at(799, 479), 800, 480, 100, 30);
    assert_eq!((m.x, m.y), (99, 29));
    let m = mouse_pixel_to_cell(at(5000, 5000), 800, 480, 100, 30);
    assert_eq!((m.x, m.y), (99, 29));
}

#[test]
fn base64_has_four_characters_for_three_bytes() {
    for (data, expected) in [
        (&b""[..], &b""[..]),
        (b"f", b"Zg=="),
        (b"fo", b"Zm8="),
        (b"foo", b"Zm9v"),
        (b"foob", b"Zm9vYg=="),
        (b"\xff\xfe\xfd", b"//79"),
    ] {
        let mut buf = Vec::new();
        write_base64(&mut buf, data);
        assert_eq!(buf, expected);
        assert_eq!(buf.len(), (data.len() + 2) / 3 * 4);
    }
}
