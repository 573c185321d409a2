//! What the replies of a terminal to queries are read as.

use crate::ansi::kitty::KittyKeyboardFlags;
use crate::ansi::osc::{
    base64, base64_char, base64_group, component_bytes, hex_char, osc_text, rgb_bytes,
    set_clipboard_bytes, set_color_bytes, set_palette_bytes, ST,
};
use crate::ansi::query::hex_encoded;
use crate::bytes::{
    digits, field_value, lemma_decimal_of_digits, lemma_split_append, lemma_split_one,
    lemma_split_two, split, ESC,
};
use crate::color::Color;
use crate::event::decode::csi::{
    keyboard_report, mouse_report, recognized, window_report, Reading,
};
use crate::event::decode::ground::parsed;
use crate::event::decode::params::{first_values, params_of};
use crate::event::decode::result::Parsed;
use crate::event::decode::sequences::{
    csi, lemma_before_after, lemma_digit_bytes, lemma_list, lemma_report, lemma_string, list, parts,
    string_sequence,
};
use crate::event::decode::strings::{
    after, before, color_spec, from, graphics_options, osc_reply, termcap_entries, termcap_entry,
};
use crate::event::decode::text::{
    all_hex, color_component, hex_bytes, hex_digit, hex_number, lossy_text,
};
use crate::event::{ClipboardSelection, EventView, ModifyOtherKeysMode};
use crate::layout::Winsize;
use vstd::prelude::*;
use vstd::string::*;

verus! {

/// The bytes of the literals that commands are made of.
proof fn lemma_osc_literals()
    ensures
        "\x1b]".spec_bytes() == seq![ESC, 0x5du8],
        ST.spec_bytes() == seq![ESC, 0x5cu8],
        ";".spec_bytes() == seq![0x3bu8],
        "/".spec_bytes() == seq![0x2fu8],
        "rgb:".spec_bytes() == seq![0x72u8, 0x67u8, 0x62u8, 0x3au8],
{
    broadcast use is_ascii_spec_bytes;

    reveal_strlit("\x1b]");
    reveal_strlit("\x1b\\");
    reveal_strlit(";");
    reveal_strlit("/");
    reveal_strlit("rgb:");
    assert("\x1b]".is_ascii());
    assert(ST.is_ascii());
    assert(";".is_ascii());
    assert("/".is_ascii());
    assert("rgb:".is_ascii());
    assert("\x1b]".spec_bytes() =~= seq![ESC, 0x5du8]);
    assert(ST.spec_bytes() =~= seq![ESC, 0x5cu8]);
    assert(";".spec_bytes() =~= seq![0x3bu8]);
    assert("/".spec_bytes() =~= seq![0x2fu8]);
    assert("rgb:".spec_bytes() =~= seq![0x72u8, 0x67u8, 0x62u8, 0x3au8]);
}

/// Whether `s` holds no byte that ends a string sequence.
pub open spec fn plain_payload(s: Seq<u8>) -> bool {
    forall|i: int|
        0 <= i < s.len() ==> #[trigger] s[i] != ESC && s[i] != 0x9c && s[i] != 0x07
}

/// An OSC command is a string sequence.
proof fn lemma_osc_text(n: nat, text: Seq<u8>)
    ensures
        osc_text(n, text) == string_sequence(0x5d, digits(n) + seq![0x3bu8] + text),
{
    lemma_osc_literals();
    assert(osc_text(n, text) =~= string_sequence(0x5d, digits(n) + seq![0x3bu8] + text));
}

/// What an OSC command is read as.
proof fn lemma_osc(cfg: Reading, n: nat, text: Seq<u8>, event: EventView, rest: Seq<u8>)
    requires
        !cfg.expired,
        plain_payload(text),
        osc_reply(digits(n) + seq![0x3bu8] + text) == Some(event),
    ensures
        parsed(cfg, osc_text(n, text) + rest) == Parsed::Event(
            event,
            osc_text(n, text).len() as int,
        ),
{
    let p = digits(n) + seq![0x3bu8] + text;
    lemma_osc_text(n, text);
    lemma_digit_bytes(n);
    assert forall|j: int| 0 <= j < p.len() implies #[trigger] p[j] != ESC && p[j] != 0x9c && p[j]
        != 0x07 by {
        if j < digits(n).len() {
            assert(p[j] == digits(n)[j]);
        } else if j > digits(n).len() {
            assert(p[j] == text[j - digits(n).len() - 1]);
        }
    }
    lemma_string(cfg, 0x5d, p, rest);
}

/// The number and the text of an OSC payload.
proof fn lemma_osc_parts(n: nat, text: Seq<u8>)
    requires
        n <= u32::MAX,
    ensures
        ({
            let p = digits(n) + seq![0x3bu8] + text;
            field_value(before(p, 0x3b)) == Some(n as u32) && after(p, 0x3b) == text
        }),
{
    lemma_digit_bytes(n);
    lemma_decimal_of_digits(n);
    lemma_before_after(digits(n), text, 0x3b);
}

/// A component that is written is read.
proof fn lemma_component(v: u8)
    ensures
        color_component(component_bytes(v)) == Some(v),
        component_bytes(v).len() == 4,
        forall|i: int|
            0 <= i < 4 ==> (0x30 <= #[trigger] component_bytes(v)[i] <= 0x39 || 0x61
                <= component_bytes(v)[i] <= 0x66),
{
    let s = component_bytes(v);
    let (h, l) = (hex_char(v / 16), hex_char(v % 16));
    assert(hex_digit(h) == Some((v / 16) as u8));
    assert(hex_digit(l) == Some((v % 16) as u8));
    assert(s =~= seq![h, l, h, l]);
    assert(all_hex(s));
    let s3 = s.drop_last();
    let s2 = s3.drop_last();
    let s1 = s2.drop_last();
    assert(s1.drop_last() =~= Seq::<u8>::empty());
    reveal_with_fuel(hex_number, 5);
    assert(hex_number(s1) == v / 16);
    assert(hex_number(s2) == v);
    assert(hex_number(s) == 257 * v);
}

/// A color that is written is read.
proof fn lemma_color(color: Color)
    ensures
        ({
            let (r, g, b) = color.spec_rgb();
            &&& color_spec(rgb_bytes(color)) == Some(Color::Rgb(r, g, b))
            &&& plain_payload(rgb_bytes(color))
            &&& forall|i: int|
                0 <= i < rgb_bytes(color).len() ==> #[trigger] rgb_bytes(color)[i] != 0x3b
        }),
{
    lemma_osc_literals();
    let (r, g, b) = color.spec_rgb();
    let (x, y, z) = (component_bytes(r), component_bytes(g), component_bytes(b));
    lemma_component(r);
    lemma_component(g);
    lemma_component(b);
    let s = rgb_bytes(color);
    let tail = x + seq![0x2fu8] + y + seq![0x2fu8] + z;
    assert(s =~= seq![0x72u8, 0x67u8, 0x62u8, 0x3au8] + tail);
    assert(s.subrange(4, s.len() as int) =~= tail);
    lemma_split_two(x, y, 0x2f);
    lemma_split_append(x + seq![0x2fu8] + y, z, 0x2f);
    let fields = split(tail, 0x2f);
    assert(fields =~= seq![x, y, z]);
}

/// A dynamic color that is set is reported as that color: the foreground by command 10, the
/// background by command 11, and the cursor by command 12.
pub proof fn law_colors_round_trip(cfg: Reading, color: Color, rest: Seq<u8>)
    requires
        !cfg.expired,
    ensures
        ({
            let (r, g, b) = color.spec_rgb();
            let c = Color::Rgb(r, g, b);
            let (fg, bg, cur) = (
                set_color_bytes(10, color),
                set_color_bytes(11, color),
                set_color_bytes(12, color),
            );
            &&& parsed(cfg, fg + rest) == Parsed::Event(
                EventView::ForegroundColor(c),
                fg.len() as int,
            )
            &&& parsed(cfg, bg + rest) == Parsed::Event(
                EventView::BackgroundColor(c),
                bg.len() as int,
            )
            &&& parsed(cfg, cur + rest) == Parsed::Event(
                EventView::CursorColor(c),
                cur.len() as int,
            )
        }),
{
    let (r, g, b) = color.spec_rgb();
    let c = Color::Rgb(r, g, b);
    let text = rgb_bytes(color);
    lemma_color(color);
    lemma_osc_parts(10, text);
    lemma_osc_parts(11, text);
    lemma_osc_parts(12, text);
    lemma_osc(cfg, 10, text, EventView::ForegroundColor(c), rest);
    lemma_osc(cfg, 11, text, EventView::BackgroundColor(c), rest);
    lemma_osc(cfg, 12, text, EventView::CursorColor(c), rest);
}

/// A palette color that is set is reported as that color of that index.
pub proof fn law_palette_colors_round_trip(cfg: Reading, index: u8, color: Color, rest: Seq<u8>)
    requires
        !cfg.expired,
    ensures
        ({
            let (r, g, b) = color.spec_rgb();
            let s = set_palette_bytes(index, color);
            parsed(cfg, s + rest) == Parsed::Event(
                EventView::PaletteColor { index, color: Color::Rgb(r, g, b) },
                s.len() as int,
            )
        }),
{
    let (r, g, b) = color.spec_rgb();
    let text = digits(index as nat) + seq![0x3bu8] + rgb_bytes(color);
    lemma_osc_literals();
    lemma_color(color);
    lemma_digit_bytes(index as nat);
    lemma_decimal_of_digits(index as nat);
    lemma_before_after(digits(index as nat), rgb_bytes(color), 0x3b);
    lemma_osc_parts(4, text);
    assert forall|j: int| 0 <= j < text.len() implies #[trigger] text[j] != ESC && text[j] != 0x9c
        && text[j] != 0x07 by {
        let k = digits(index as nat).len();
        if j < k {
            assert(text[j] == digits(index as nat)[j]);
        } else if j > k {
            assert(text[j] == rgb_bytes(color)[j - k - 1]);
        }
    }
    lemma_osc(
        cfg,
        4,
        text,
        EventView::PaletteColor { index, color: Color::Rgb(r, g, b) },
        rest,
    );
}

/// The byte of a clipboard selection.
pub open spec fn selection_byte(selection: ClipboardSelection) -> u8 {
    match selection {
        ClipboardSelection::System => 0x63,
        ClipboardSelection::Primary => 0x70,
        ClipboardSelection::Other(c) => c as u8,
    }
}

/// The characters of Base64 end no sequence.
proof fn lemma_base64_bytes(s: Seq<u8>)
    ensures
        forall|i: int| 0 <= i < base64(s).len() ==> 0x2b <= #[trigger] base64(s)[i] <= 0x7a,
    decreases s.len(),
{
    if s.len() >= 3 {
        let rest = s.subrange(3, s.len() as int);
        lemma_base64_bytes(rest);
        let g = base64_group(s[0], s[1], s[2]);
        assert(base64(s) == g + base64(rest));
        assert forall|i: int| 0 <= i < base64(s).len() implies 0x2b <= #[trigger] base64(s)[i]
            <= 0x7a by {
            if i >= 4 {
                assert(base64(s)[i] == base64(rest)[i - 4]);
            } else {
                assert(base64(s)[i] == g[i]);
            }
        }
    }
}

/// A clipboard that is set is reported as that selection with the same Base64 text.
pub proof fn law_clipboard_round_trip(
    cfg: Reading,
    selection: ClipboardSelection,
    data: Seq<u8>,
    rest: Seq<u8>,
)
    requires
        !cfg.expired,
        selection matches ClipboardSelection::Other(c) ==> 0x20 <= c as u32 && c as u32 <= 0x7e && c
            != ';' && c != 'c' && c != 'p',
    ensures
        ({
            let s = set_clipboard_bytes(selection_byte(selection), data);
            parsed(cfg, s + rest) == Parsed::Event(
                EventView::Clipboard { selection, content: lossy_text(base64(data)) },
                s.len() as int,
            )
        }),
{
    let b = selection_byte(selection);
    let text = seq![b, 0x3bu8] + base64(data);
    lemma_base64_bytes(data);
    assert(text =~= seq![b] + seq![0x3bu8] + base64(data));
    lemma_before_after(seq![b], base64(data), 0x3b);
    lemma_osc_parts(52, text);
    assert(text[0] == b);
    assert forall|j: int| 0 <= j < text.len() implies #[trigger] text[j] != ESC && text[j] != 0x9c
        && text[j] != 0x07 by {
        if j >= 2 {
            assert(text[j] == base64(data)[j - 2]);
        }
    }
    lemma_osc(
        cfg,
        52,
        text,
        EventView::Clipboard { selection, content: lossy_text(base64(data)) },
        rest,
    );
}

/// The six bits that a Base64 character stands for.
pub open spec fn base64_value(c: u8) -> int {
    if 0x41 <= c <= 0x5a {
        c - 0x41
    } else if 0x61 <= c <= 0x7a {
        c - 0x61 + 26
    } else if 0x30 <= c <= 0x39 {
        c - 0x30 + 52
    } else if c == 0x2b {
        62
    } else if c == 0x2f {
        63
    } else {
        0
    }
}

/// The number that four Base64 characters stand for.
pub open spec fn base64_number(a: u8, b: u8, c: u8, d: u8) -> int {
    base64_value(a) * 262144 + base64_value(b) * 4096 + base64_value(c) * 64 + base64_value(d)
}

/// The three bytes of such a number.
pub open spec fn number_bytes(n: int) -> Seq<u8> {
    seq![(n / 65536) as u8, ((n / 256) % 256) as u8, (n % 256) as u8]
}

/// The bytes that Base64 text stands for: three for every four characters, less one for every
/// `=` at its end.
pub open spec fn base64_decoded(s: Seq<u8>) -> Seq<u8>
    decreases s.len(),
{
    if s.len() < 4 {
        Seq::empty()
    } else {
        let bytes = number_bytes(base64_number(s[0], s[1], s[2], s[3]));
        if s[2] == 0x3d {
            bytes.subrange(0, 1)
        } else if s[3] == 0x3d {
            bytes.subrange(0, 2)
        } else {
            bytes + base64_decoded(s.subrange(4, s.len() as int))
        }
    }
}

/// The character of six bits stands for them.
proof fn lemma_base64_char(n: u8)
    requires
        n < 64,
    ensures
        base64_value(base64_char(n)) == n,
        base64_char(n) != 0x3d,
{
}

/// The characters of three bytes stand for them.
proof fn lemma_base64_group(a: u8, b: u8, c: u8)
    ensures
        ({
            let g = base64_group(a, b, c);
            &&& number_bytes(base64_number(g[0], g[1], g[2], g[3])) == seq![a, b, c]
            &&& g[0] != 0x3d && g[1] != 0x3d && g[2] != 0x3d && g[3] != 0x3d
            &&& c == 0 ==> base64_value(g[3]) == 0
            &&& b == 0 && c == 0 ==> base64_value(g[2]) == 0
        }),
{
    let i0 = a / 4;
    let i1 = ((a % 4) * 16 + b / 16) as u8;
    let i2 = ((b % 16) * 4 + c / 64) as u8;
    let i3 = c % 64;
    lemma_base64_char(i0);
    lemma_base64_char(i1);
    lemma_base64_char(i2);
    lemma_base64_char(i3);
    assert(a == 4 * i0 + a % 4);
    assert(b == 16 * (b / 16) + b % 16);
    assert(c == 64 * (c / 64) + i3);
    lemma_number_bytes(a, b, c);
}

/// The bytes of a number that was made of them.
proof fn lemma_number_bytes(a: u8, b: u8, c: u8)
    ensures
        number_bytes(a * 65536 + b * 256 + c) == seq![a, b, c],
{
    let n = a * 65536 + b * 256 + c;
    assert(n / 65536 == a);
    assert(n / 256 == a * 256 + b);
    assert((n / 256) % 256 == b);
    assert(n % 256 == c);
}

/// What is encoded in Base64 is read back from it.
pub proof fn law_base64_round_trip(s: Seq<u8>)
    ensures
        base64_decoded(base64(s)) == s,
    decreases s.len(),
{
    let e = base64(s);
    if s.len() == 0 {
        assert(base64_decoded(e) =~= s);
    } else if s.len() == 1 {
        let g = base64_group(s[0], 0, 0);
        lemma_base64_group(s[0], 0, 0);
        assert(e =~= seq![g[0], g[1], 0x3du8, 0x3du8]);
        assert(base64_number(g[0], g[1], 0x3d, 0x3d) == base64_number(g[0], g[1], g[2], g[3]));
        assert(base64_decoded(e) == seq![s[0], 0u8, 0u8].subrange(0, 1));
        assert(base64_decoded(e) =~= s);
    } else if s.len() == 2 {
        let g = base64_group(s[0], s[1], 0);
        lemma_base64_group(s[0], s[1], 0);
        assert(e =~= seq![g[0], g[1], g[2], 0x3du8]);
        assert(base64_number(g[0], g[1], g[2], 0x3d) == base64_number(g[0], g[1], g[2], g[3]));
        assert(base64_decoded(e) == seq![s[0], s[1], 0u8].subrange(0, 2));
        assert(base64_decoded(e) =~= s);
    } else {
        let rest = s.subrange(3, s.len() as int);
        let g = base64_group(s[0], s[1], s[2]);
        law_base64_round_trip(rest);
        lemma_base64_group(s[0], s[1], s[2]);
        assert(e[0] == g[0] && e[1] == g[1] && e[2] == g[2] && e[3] == g[3]);
        assert(e.subrange(4, e.len() as int) =~= base64(rest));
        assert(base64_decoded(e) == seq![s[0], s[1], s[2]] + rest);
        assert(base64_decoded(e) =~= s);
    }
}

/// The values of numbers that are all there.
pub open spec fn present(numbers: Seq<nat>) -> Seq<Option<u32>> {
    Seq::new(numbers.len(), |i: int| Some(numbers[i] as u32))
}

/// Device attributes are the numbers of their report: the primary ones after `?`, the secondary
/// ones after `>`.
pub proof fn law_device_attributes_round_trip(cfg: Reading, numbers: Seq<nat>, rest: Seq<u8>)
    requires
        !cfg.expired,
        forall|i: int| 0 <= i < numbers.len() ==> #[trigger] numbers[i] <= u32::MAX,
    ensures
        ({
            let a = csi(Some(0x3fu8), list(numbers), 0x63);
            let b = csi(Some(0x3eu8), list(numbers), 0x63);
            &&& parsed(cfg, a + rest) == Parsed::Event(
                EventView::PrimaryDeviceAttributes(present(numbers)),
                a.len() as int,
            )
            &&& parsed(cfg, b + rest) == Parsed::Event(
                EventView::SecondaryDeviceAttributes(present(numbers)),
                b.len() as int,
            )
        }),
{
    lemma_list(numbers);
    let p = params_of(list(numbers));
    let values = first_values(p, 0);
    assert(values =~= present(numbers));
    lemma_report(
        cfg,
        Some(0x3fu8),
        numbers,
        0x63,
        EventView::PrimaryDeviceAttributes(present(numbers)),
        rest,
    );
    lemma_report(
        cfg,
        Some(0x3eu8),
        numbers,
        0x63,
        EventView::SecondaryDeviceAttributes(present(numbers)),
        rest,
    );
}

/// Sizes are reported with the height before the width: of the window in pixels by 4, of a cell
/// in pixels by 6, and of the window in cells by 8.
pub proof fn law_sizes_round_trip(cfg: Reading, width: u16, height: u16, rest: Seq<u8>)
    requires
        !cfg.expired,
    ensures
        ({
            let a = csi(None, list(seq![4nat, height as nat, width as nat]), 0x74);
            let b = csi(None, list(seq![6nat, height as nat, width as nat]), 0x74);
            let c = csi(None, list(seq![8nat, height as nat, width as nat]), 0x74);
            &&& parsed(cfg, a + rest) == Parsed::Event(
                EventView::WindowPixelSize { width, height },
                a.len() as int,
            )
            &&& parsed(cfg, b + rest) == Parsed::Event(
                EventView::CellPixelSize { width, height },
                b.len() as int,
            )
            &&& parsed(cfg, c + rest) == Parsed::Event(
                EventView::WindowCellSize { width, height },
                c.len() as int,
            )
        }),
{
    lemma_size(cfg, 4, width, height, EventView::WindowPixelSize { width, height }, rest);
    lemma_size(cfg, 6, width, height, EventView::CellPixelSize { width, height }, rest);
    lemma_size(cfg, 8, width, height, EventView::WindowCellSize { width, height }, rest);
}

/// One size.
proof fn lemma_size(
    cfg: Reading,
    op: nat,
    width: u16,
    height: u16,
    event: EventView,
    rest: Seq<u8>,
)
    requires
        !cfg.expired,
        op == 4 && event == (EventView::WindowPixelSize { width, height }) || op == 6 && event == (
        EventView::CellPixelSize { width, height }) || op == 8 && event == (
        EventView::WindowCellSize { width, height }),
    ensures
        ({
            let s = csi(None, list(seq![op, height as nat, width as nat]), 0x74);
            parsed(cfg, s + rest) == Parsed::Event(event, s.len() as int)
        }),
{
    let numbers = seq![op, height as nat, width as nat];
    lemma_list(numbers);
    let p = params_of(list(numbers));
    assert(p[0][0] == Some(op as u32));
    assert(p[1][0] == Some(height as u32));
    assert(p[2][0] == Some(width as u32));
    assert(recognized(parts(None, list(numbers), 0x74), cfg.flags) == Some(event));
    lemma_report(cfg, None, numbers, 0x74, event, rest);
}

/// An in-band resize reports rows, columns, and the height and width in pixels.
pub proof fn law_resize_round_trip(cfg: Reading, ws: Winsize, rest: Seq<u8>)
    requires
        !cfg.expired,
    ensures
        ({
            let s = csi(
                None,
                list(
                    seq![
                        48nat,
                        ws.row as nat,
                        ws.col as nat,
                        ws.ypixel as nat,
                        ws.xpixel as nat,
                    ],
                ),
                0x74,
            );
            parsed(cfg, s + rest) == Parsed::Event(EventView::Resize(ws), s.len() as int)
        }),
{
    let numbers = seq![
        48nat,
        ws.row as nat,
        ws.col as nat,
        ws.ypixel as nat,
        ws.xpixel as nat,
    ];
    lemma_list(numbers);
    let p = params_of(list(numbers));
    assert(p[0][0] == Some(48u32));
    assert(p[1][0] == Some(ws.row as u32));
    assert(p[2][0] == Some(ws.col as u32));
    assert(p[3][0] == Some(ws.ypixel as u32));
    assert(p[4][0] == Some(ws.xpixel as u32));
    assert(recognized(parts(None, list(numbers), 0x74), cfg.flags) == Some(EventView::Resize(ws)));
    lemma_report(cfg, None, numbers, 0x74, EventView::Resize(ws), rest);
}

/// One for a flag that is set.
pub open spec fn unit(flag: bool) -> nat {
    if flag {
        1
    } else {
        0
    }
}

/// The number of a set of keyboard enhancements.
pub open spec fn enhancements_number(f: KittyKeyboardFlags) -> nat {
    unit(f.disambiguate_escape_codes) + 2 * unit(f.report_event_types) + 4 * unit(
        f.report_alternate_keys,
    ) + 8 * unit(f.report_all_keys_as_escape_codes) + 16 * unit(f.report_associated_text)
}

/// The active keyboard enhancements, and the modifyOtherKeys mode, are those that are reported.
pub proof fn law_keyboard_reports_round_trip(
    cfg: Reading,
    flags: KittyKeyboardFlags,
    mode: ModifyOtherKeysMode,
    rest: Seq<u8>,
)
    requires
        !cfg.expired,
    ensures
        ({
            let a = csi(Some(0x3fu8), digits(enhancements_number(flags)), 0x75);
            parsed(cfg, a + rest) == Parsed::Event(
                EventView::KittyKeyboardEnhancements(flags),
                a.len() as int,
            )
        }),
        ({
            let b = csi(Some(0x3eu8), list(seq![4nat, other_keys_number(mode)]), 0x6d);
            parsed(cfg, b + rest) == Parsed::Event(
                EventView::ModifyOtherKeys(mode),
                b.len() as int,
            )
        }),
{
    lemma_enhancements(cfg, flags, rest);
    lemma_other_keys(cfg, mode, rest);
}

/// The number of a set of enhancements stands for that set.
proof fn lemma_enhancements_number(flags: KittyKeyboardFlags)
    ensures
        enhancements_number(flags) < 32,
        KittyKeyboardFlags::from_bits_truncate(enhancements_number(flags) as u8) == flags,
{
}

/// The report of the active enhancements.
proof fn lemma_enhancements(cfg: Reading, flags: KittyKeyboardFlags, rest: Seq<u8>)
    requires
        !cfg.expired,
    ensures
        ({
            let a = csi(Some(0x3fu8), digits(enhancements_number(flags)), 0x75);
            parsed(cfg, a + rest) == Parsed::Event(
                EventView::KittyKeyboardEnhancements(flags),
                a.len() as int,
            )
        }),
{
    let bits = enhancements_number(flags);
    let one = seq![bits];
    lemma_enhancements_number(flags);
    lemma_list(one);
    assert(list(one) == digits(bits));
    let p = params_of(list(one));
    assert(p[0][0] == Some(bits as u32));
    let e = EventView::KittyKeyboardEnhancements(flags);
    let c = parts(Some(0x3fu8), list(one), 0x75);
    assert(keyboard_report(c) == Some(e));
    assert(recognized(c, cfg.flags) == keyboard_report(c));
    lemma_report(cfg, Some(0x3fu8), one, 0x75, e, rest);
}

/// The number of a modifyOtherKeys mode.
pub open spec fn other_keys_number(mode: ModifyOtherKeysMode) -> nat {
    match mode {
        ModifyOtherKeysMode::Disabled => 0,
        ModifyOtherKeysMode::Mode1 => 1,
        ModifyOtherKeysMode::Mode2 => 2,
    }
}

/// The report of the modifyOtherKeys mode.
proof fn lemma_other_keys(cfg: Reading, mode: ModifyOtherKeysMode, rest: Seq<u8>)
    requires
        !cfg.expired,
    ensures
        ({
            let b = csi(Some(0x3eu8), list(seq![4nat, other_keys_number(mode)]), 0x6d);
            parsed(cfg, b + rest) == Parsed::Event(
                EventView::ModifyOtherKeys(mode),
                b.len() as int,
            )
        }),
{
    let n = other_keys_number(mode);
    let two = seq![4nat, n];
    lemma_list(two);
    let p = params_of(list(two));
    assert(p[0][0] == Some(4u32));
    assert(p[1][0] == Some(n as u32));
    let m = EventView::ModifyOtherKeys(mode);
    let c = parts(Some(0x3eu8), list(two), 0x6d);
    assert(mouse_report(c) == Some(m));
    assert(recognized(c, cfg.flags) == mouse_report(c));
    lemma_report(cfg, Some(0x3eu8), two, 0x6d, m, rest);
}

/// Bytes as pairs of hexadecimal digits.
pub open spec fn hex_text(s: Seq<u8>) -> Seq<u8> {
    Seq::new(
        2 * s.len(),
        |i: int|
            if i % 2 == 0 {
                hex_char(s[i / 2] / 16)
            } else {
                hex_char(s[i / 2] % 16)
            },
    )
}

/// Bytes that are written in hexadecimal are read.
pub proof fn law_hex_round_trip(s: Seq<u8>)
    ensures
        hex_bytes(hex_text(s)) == Some(s),
        forall|i: int|
            0 <= i < hex_text(s).len() ==> (0x30 <= #[trigger] hex_text(s)[i] <= 0x39 || 0x61
                <= hex_text(s)[i] <= 0x66),
{
    let e = hex_text(s);
    assert forall|i: int| 0 <= i < e.len() implies hex_digit(#[trigger] e[i]) is Some by {}
    assert forall|i: int| 0 <= i < s.len() implies (16 * hex_digit(e[2 * i])->0 + hex_digit(
        e[2 * i + 1],
    )->0) as u8 == #[trigger] s[i] by {
        let b = s[i];
        assert((2 * i) / 2 == i && (2 * i + 1) / 2 == i);
        assert(hex_digit(hex_char(b / 16)) == Some((b / 16) as u8));
        assert(hex_digit(hex_char(b % 16)) == Some((b % 16) as u8));
        assert(16 * (b / 16) + b % 16 == b);
    }
    assert(hex_bytes(e)->0 =~= s);
}

/// The name of a capability is asked for in the digits that a reply is read from.
pub proof fn law_capability_names_round_trip(name: Seq<u8>)
    ensures
        hex_bytes(hex_encoded(name)) == Some(name),
{
    lemma_hex_encoded(name);
    law_hex_round_trip(name);
}

/// Both ways to write bytes in hexadecimal agree.
proof fn lemma_hex_encoded(s: Seq<u8>)
    ensures
        hex_encoded(s) == hex_text(s),
    decreases s.len(),
{
    if s.len() > 0 {
        let front = s.drop_last();
        lemma_hex_encoded(front);
        let e = hex_encoded(s);
        assert forall|i: int| 0 <= i < 2 * s.len() implies #[trigger] e[i] == hex_text(s)[i] by {
            if i < 2 * front.len() {
                assert(e[i] == hex_text(front)[i]);
                assert(front[i / 2] == s[i / 2]);
            }
        }
        assert(e =~= hex_text(s));
    } else {
        assert(hex_encoded(s) =~= hex_text(s));
    }
}

/// The name and version of the terminal are the text of its reply, and the tertiary device
/// attributes are the text that its digits spell.
pub proof fn law_terminal_names_round_trip(cfg: Reading, text: Seq<u8>, rest: Seq<u8>)
    requires
        !cfg.expired,
        plain_payload(text),
    ensures
        ({
            let a = string_sequence(0x50, seq![0x3eu8, 0x7cu8] + text);
            let b = string_sequence(0x50, seq![0x21u8, 0x7cu8] + hex_text(text));
            &&& parsed(cfg, a + rest) == Parsed::Event(
                EventView::TerminalName(lossy_text(text)),
                a.len() as int,
            )
            &&& parsed(cfg, b + rest) == Parsed::Event(
                EventView::TertiaryDeviceAttributes(lossy_text(text)),
                b.len() as int,
            )
        }),
{
    let p = seq![0x3eu8, 0x7cu8] + text;
    assert(from(p, 2) =~= text);
    assert forall|j: int| 0 <= j < p.len() implies #[trigger] p[j] != ESC && p[j] != 0x9c && p[j]
        != 0x07 by {
        if j >= 2 {
            assert(p[j] == text[j - 2]);
        }
    }
    lemma_string(cfg, 0x50, p, rest);
    let h = hex_text(text);
    let q = seq![0x21u8, 0x7cu8] + h;
    law_hex_round_trip(text);
    assert(from(q, 2) =~= h);
    assert forall|j: int| 0 <= j < q.len() implies #[trigger] q[j] != ESC && q[j] != 0x9c && q[j]
        != 0x07 by {
        if j >= 2 {
            assert(q[j] == h[j - 2]);
        }
    }
    lemma_string(cfg, 0x50, q, rest);
}

/// A capability with a value, in hexadecimal.
pub open spec fn capability_text(name: Seq<u8>, value: Seq<u8>) -> Seq<u8> {
    hex_text(name) + seq![0x3du8] + hex_text(value)
}

/// A capability reply says whether the capability was recognized, and its name and value.
pub proof fn law_capabilities_round_trip(
    cfg: Reading,
    recognized: bool,
    name: Seq<u8>,
    value: Seq<u8>,
    rest: Seq<u8>,
)
    requires
        !cfg.expired,
        name.len() > 0,
    ensures
        ({
            let s = string_sequence(
                0x50,
                seq![
                    if recognized {
                        0x31u8
                    } else {
                        0x30u8
                    },
                    0x2bu8,
                    0x72u8,
                ] + capability_text(name, value),
            );
            parsed(cfg, s + rest) == Parsed::Event(
                EventView::Termcap {
                    recognized,
                    payload: lossy_text(name + seq![0x3du8] + value),
                },
                s.len() as int,
            )
        }),
{
    let lead: u8 = if recognized {
        0x31u8
    } else {
        0x30u8
    };
    let e = capability_text(name, value);
    let p = seq![lead, 0x2bu8, 0x72u8] + e;
    lemma_capability(name, value);
    assert(from(p, 3) =~= e);
    assert forall|j: int| 0 <= j < p.len() implies #[trigger] p[j] != ESC && p[j] != 0x9c && p[j]
        != 0x07 by {
        if j >= 3 {
            assert(p[j] == e[j - 3]);
        }
    }
    lemma_string(cfg, 0x50, p, rest);
}

/// The bytes of a capability hold hexadecimal digits and `=`.
proof fn lemma_capability_bytes(name: Seq<u8>, value: Seq<u8>)
    ensures
        ({
            let e = capability_text(name, value);
            forall|j: int| 0 <= j < e.len() ==> 0x30 <= #[trigger] e[j] <= 0x66 && e[j] != 0x3b
        }),
{
    let e = capability_text(name, value);
    law_hex_round_trip(name);
    law_hex_round_trip(value);
    assert forall|j: int| 0 <= j < e.len() implies 0x30 <= #[trigger] e[j] <= 0x66 && e[j]
        != 0x3b by {
        let k = hex_text(name).len();
        if j < k {
            assert(e[j] == hex_text(name)[j]);
        } else if j > k {
            assert(e[j] == hex_text(value)[j - k - 1]);
        }
    }
}

/// A capability is read as its name and value.
proof fn lemma_capability(name: Seq<u8>, value: Seq<u8>)
    requires
        name.len() > 0,
    ensures
        ({
            let e = capability_text(name, value);
            &&& termcap_entries(split(e, 0x3b)) == name + seq![0x3du8] + value
            &&& forall|j: int| 0 <= j < e.len() ==> 0x30 <= #[trigger] e[j] <= 0x66 && e[j] != 0x3b
        }),
{
    let e = capability_text(name, value);
    lemma_capability_bytes(name, value);
    law_hex_round_trip(name);
    law_hex_round_trip(value);
    lemma_before_after(hex_text(name), hex_text(value), 0x3d);
    assert(termcap_entry(e) == Some(name + seq![0x3du8] + value));
    lemma_split_one(e, 0x3b);
    let entries = seq![e];
    assert(entries.drop_last() =~= Seq::<Seq<u8>>::empty());
    assert(termcap_entries(entries.drop_last()).len() == 0);
}

/// A status string says whether the request was recognized, and is handed over whole.
pub proof fn law_status_strings_round_trip(
    cfg: Reading,
    recognized: bool,
    text: Seq<u8>,
    rest: Seq<u8>,
)
    requires
        !cfg.expired,
        plain_payload(text),
    ensures
        ({
            let p = seq![
                if recognized {
                    0x31u8
                } else {
                    0x30u8
                },
                0x24u8,
                0x72u8,
            ] + text;
            let s = string_sequence(0x50, p);
            parsed(cfg, s + rest) == Parsed::Event(
                EventView::Termcap { recognized, payload: lossy_text(p) },
                s.len() as int,
            )
        }),
{
    let lead: u8 = if recognized {
        0x31u8
    } else {
        0x30u8
    };
    let p = seq![lead, 0x24u8, 0x72u8] + text;
    assert forall|j: int| 0 <= j < p.len() implies #[trigger] p[j] != ESC && p[j] != 0x9c && p[j]
        != 0x07 by {
        if j >= 3 {
            assert(p[j] == text[j - 3]);
        }
    }
    lemma_string(cfg, 0x50, p, rest);
}

/// Other window operations are handed over with their number and arguments.
pub proof fn law_window_operations_round_trip(
    cfg: Reading,
    op: u32,
    args: Seq<nat>,
    rest: Seq<u8>,
)
    requires
        !cfg.expired,
        op != 4 && op != 6 && op != 8 && op != 48,
        forall|i: int| 0 <= i < args.len() ==> #[trigger] args[i] <= u32::MAX,
    ensures
        ({
            let s = csi(None, list(seq![op as nat] + args), 0x74);
            parsed(cfg, s + rest) == Parsed::Event(
                EventView::WindowOp { op, args: present(args) },
                s.len() as int,
            )
        }),
{
    let numbers = seq![op as nat] + args;
    assert forall|i: int| 0 <= i < numbers.len() implies #[trigger] numbers[i] <= u32::MAX by {
        if i > 0 {
            assert(numbers[i] == args[i - 1]);
        }
    }
    lemma_list(numbers);
    let p = params_of(list(numbers));
    assert(p[0][0] == Some(op));
    assert(first_values(p, 1) =~= present(args));
    let c = parts(None, list(numbers), 0x74);
    let e = EventView::WindowOp { op, args: present(args) };
    assert(window_report(c) == Some(e));
    assert(recognized(c, cfg.flags) == window_report(c));
    lemma_report(cfg, None, numbers, 0x74, e, rest);
}

/// A graphics response is its options and its payload.
pub proof fn law_graphics_responses_round_trip(
    cfg: Reading,
    key: Seq<u8>,
    value: Seq<u8>,
    payload: Seq<u8>,
    rest: Seq<u8>,
)
    requires
        !cfg.expired,
        plain_payload(key),
        plain_payload(value),
        plain_payload(payload),
        forall|i: int|
            0 <= i < key.len() ==> #[trigger] key[i] != 0x3d && key[i] != 0x3b && key[i] != 0x2c,
        forall|i: int| 0 <= i < value.len() ==> #[trigger] value[i] != 0x3b && value[i] != 0x2c,
    ensures
        ({
            let s = string_sequence(
                0x5f,
                seq![0x47u8] + key + seq![0x3du8] + value + seq![0x3bu8] + payload,
            );
            parsed(cfg, s + rest) == Parsed::Event(
                EventView::KittyGraphics {
                    options: seq![(lossy_text(key), lossy_text(value))],
                    payload,
                },
                s.len() as int,
            )
        }),
{
    let option = key + seq![0x3du8] + value;
    let p = seq![0x47u8] + key + seq![0x3du8] + value + seq![0x3bu8] + payload;
    assert forall|j: int| 0 <= j < option.len() implies #[trigger] option[j] != 0x3b && option[j]
        != 0x2c && option[j] != ESC && option[j] != 0x9c && option[j] != 0x07 by {
        if j < key.len() {
            assert(option[j] == key[j]);
        } else if j > key.len() {
            assert(option[j] == value[j - key.len() - 1]);
        }
    }
    assert(from(p, 1) =~= option + seq![0x3bu8] + payload);
    lemma_before_after(option, payload, 0x3b);
    lemma_split_one(option, 0x2c);
    lemma_before_after(key, value, 0x3d);
    let fields = seq![option];
    assert(fields.drop_last() =~= Seq::<Seq<u8>>::empty());
    assert(graphics_options(fields.drop_last()) =~= Seq::empty());
    assert(graphics_options(fields) =~= seq![(lossy_text(key), lossy_text(value))]);
    assert forall|j: int| 0 <= j < p.len() implies #[trigger] p[j] != ESC && p[j] != 0x9c && p[j]
        != 0x07 by {
        let k = option.len();
        if 1 <= j <= k {
            assert(p[j] == option[j - 1]);
        } else if j > k + 1 {
            assert(p[j] == payload[j - k - 2]);
        }
    }
    lemma_string(cfg, 0x5f, p, rest);
}

/// Strings without a meaning of their own are handed over with their kind and payload.
pub proof fn law_strings_are_kept(cfg: Reading, payload: Seq<u8>, rest: Seq<u8>)
    requires
        !cfg.expired,
        plain_payload(payload),
    ensures
        ({
            let a = string_sequence(0x58, payload);
            let b = string_sequence(0x5e, payload);
            &&& parsed(cfg, a + rest) == Parsed::Event(
                EventView::UnknownSos(payload),
                a.len() as int,
            )
            &&& parsed(cfg, b + rest) == Parsed::Event(
                EventView::UnknownPm(payload),
                b.len() as int,
            )
        }),
{
    lemma_string(cfg, 0x58, payload, rest);
    lemma_string(cfg, 0x5e, payload, rest);
}

} // verus!
