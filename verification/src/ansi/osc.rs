//! Operating System Commands: titles, colors, and the clipboard.

use crate::bytes::{append, append_decimal, append_str, digits};
use crate::color::Color;
use vstd::prelude::*;
use vstd::string::*;

verus! {

/// The string terminator, `ESC \`.
pub const ST: &'static str = "\x1b\\";

/// `OSC <n> ; <text> ST`.
pub open spec fn osc_text(n: nat, text: Seq<u8>) -> Seq<u8> {
    "\x1b]".spec_bytes() + digits(n) + ";".spec_bytes() + text + ST.spec_bytes()
}

fn write_osc_text(w: &mut Vec<u8>, n: u32, text: &[u8])
    ensures
        final(w)@ == old(w)@ + osc_text(n as nat, text@),
{
    append_str(w, "\x1b]");
    append_decimal(w, n);
    append_str(w, ";");
    append(w, text);
    append_str(w, ST);
    assert(w@ =~= old(w)@ + osc_text(n as nat, text@));
}

/// Set the window title and the icon name (`OSC 0`).
pub fn write_window_title_and_icon(w: &mut Vec<u8>, title: &str)
    ensures
        final(w)@ == old(w)@ + osc_text(0, title.spec_bytes()),
{
    write_osc_text(w, 0, title.as_bytes());
}

/// Set the icon name (`OSC 1`).
pub fn write_icon_name(w: &mut Vec<u8>, title: &str)
    ensures
        final(w)@ == old(w)@ + osc_text(1, title.spec_bytes()),
{
    write_osc_text(w, 1, title.as_bytes());
}

/// Set the window title (`OSC 2`).
pub fn write_window_title(w: &mut Vec<u8>, title: &str)
    ensures
        final(w)@ == old(w)@ + osc_text(2, title.spec_bytes()),
{
    write_osc_text(w, 2, title.as_bytes());
}

/// The lower-case hexadecimal digit of `n`.
#[verifier::allow_in_spec]
pub fn hex_char(n: u8) -> u8
    returns
        (if n < 10 {
            (0x30 + n) as u8
        } else if n < 16 {
            (0x57 + n) as u8
        } else {
            0x66u8
        }),
{
    if n < 10 {
        0x30 + n
    } else if n < 16 {
        0x57 + n
    } else {
        0x66
    }
}

/// The two hexadecimal digits of a byte.
pub open spec fn hex_pair(b: u8) -> Seq<u8> {
    seq![hex_char(b / 16), hex_char(b % 16)]
}

/// An eight-bit component as four digits: its two digits, twice.
pub open spec fn component_bytes(v: u8) -> Seq<u8> {
    hex_pair(v) + hex_pair(v)
}

/// `rgb:RRRR/GGGG/BBBB`.
pub open spec fn rgb_bytes(color: Color) -> Seq<u8> {
    let rgb = color.spec_rgb();
    "rgb:".spec_bytes() + component_bytes(rgb.0) + "/".spec_bytes() + component_bytes(rgb.1)
        + "/".spec_bytes() + component_bytes(rgb.2)
}

fn write_component(w: &mut Vec<u8>, v: u8)
    ensures
        final(w)@ == old(w)@ + component_bytes(v),
{
    w.push(hex_char(v / 16));
    w.push(hex_char(v % 16));
    w.push(hex_char(v / 16));
    w.push(hex_char(v % 16));
    assert(w@ =~= old(w)@ + component_bytes(v));
}

/// Write a color as `rgb:RRRR/GGGG/BBBB`.
pub fn xparse_rgb(w: &mut Vec<u8>, color: Color)
    ensures
        final(w)@ == old(w)@ + rgb_bytes(color),
{
    let (r, g, b) = color.to_rgb();
    append_str(w, "rgb:");
    write_component(w, r);
    append_str(w, "/");
    write_component(w, g);
    append_str(w, "/");
    write_component(w, b);
    assert(w@ =~= old(w)@ + rgb_bytes(color));
}

/// The bytes that set a dynamic color: 10 foreground, 11 background, 12 cursor.
pub open spec fn set_color_bytes(n: nat, color: Color) -> Seq<u8> {
    osc_text(n, rgb_bytes(color))
}

/// Set a dynamic color: 10 foreground, 11 background, 12 cursor.
pub fn write_set_color(w: &mut Vec<u8>, n: u32, color: Color)
    ensures
        final(w)@ == old(w)@ + set_color_bytes(n as nat, color),
{
    append_str(w, "\x1b]");
    append_decimal(w, n);
    append_str(w, ";");
    xparse_rgb(w, color);
    append_str(w, ST);
    assert(w@ =~= old(w)@ + set_color_bytes(n as nat, color));
}

/// `OSC <n> ST`.
pub open spec fn osc_bare(n: nat) -> Seq<u8> {
    "\x1b]".spec_bytes() + digits(n) + ST.spec_bytes()
}

/// Restore a default: 104 palette, 110 foreground, 111 background, 112 cursor.
pub fn write_osc_bare(w: &mut Vec<u8>, n: u32)
    ensures
        final(w)@ == old(w)@ + osc_bare(n as nat),
{
    append_str(w, "\x1b]");
    append_decimal(w, n);
    append_str(w, ST);
    assert(w@ =~= old(w)@ + osc_bare(n as nat));
}

/// Query a dynamic color: 10 foreground, 11 background, 12 cursor.
pub fn write_request_color(w: &mut Vec<u8>, n: u32)
    ensures
        final(w)@ == old(w)@ + osc_text(n as nat, "?".spec_bytes()),
{
    write_osc_text(w, n, "?".as_bytes());
}

/// The bytes that set a palette color.
pub open spec fn set_palette_bytes(index: u8, color: Color) -> Seq<u8> {
    osc_text(4, digits(index as nat) + ";".spec_bytes() + rgb_bytes(color))
}

/// Set a palette color (`OSC 4`).
pub fn write_set_palette_color(w: &mut Vec<u8>, index: u8, color: Color)
    ensures
        final(w)@ == old(w)@ + set_palette_bytes(index, color),
{
    append_str(w, "\x1b]");
    append_decimal(w, 4);
    append_str(w, ";");
    append_decimal(w, index as u32);
    append_str(w, ";");
    xparse_rgb(w, color);
    append_str(w, ST);
    assert(w@ =~= old(w)@ + set_palette_bytes(index, color));
}

/// Reset one palette color (`OSC 104 ; index`).
pub fn write_reset_palette_color(w: &mut Vec<u8>, index: u8)
    ensures
        final(w)@ == old(w)@ + osc_text(104, digits(index as nat)),
{
    let mut text: Vec<u8> = Vec::new();
    append_decimal(&mut text, index as u32);
    assert(text@ =~= digits(index as nat));
    write_osc_text(w, 104, text.as_slice());
}

/// Query one palette color (`OSC 4 ; index ; ?`).
pub fn write_request_palette_color(w: &mut Vec<u8>, index: u8)
    ensures
        final(w)@ == old(w)@ + osc_text(4, digits(index as nat) + ";?".spec_bytes()),
{
    let mut text: Vec<u8> = Vec::new();
    append_decimal(&mut text, index as u32);
    append_str(&mut text, ";?");
    assert(text@ =~= digits(index as nat) + ";?".spec_bytes());
    write_osc_text(w, 4, text.as_slice());
}

/// The Base64 character of a six-bit value.
#[verifier::allow_in_spec]
pub fn base64_char(n: u8) -> u8
    returns
        (if n < 26 {
            (0x41 + n) as u8
        } else if n < 52 {
            (0x47 + n) as u8
        } else if n < 62 {
            (n - 4) as u8
        } else if n == 62 {
            0x2bu8
        } else {
            0x2fu8
        }),
{
    if n < 26 {
        0x41 + n
    } else if n < 52 {
        0x47 + n
    } else if n < 62 {
        n - 4
    } else if n == 62 {
        0x2b
    } else {
        0x2f
    }
}

/// The four characters of three bytes.
pub open spec fn base64_group(a: u8, b: u8, c: u8) -> Seq<u8> {
    seq![
        base64_char(a / 4),
        base64_char(((a % 4) * 16 + b / 16) as u8),
        base64_char(((b % 16) * 4 + c / 64) as u8),
        base64_char(c % 64),
    ]
}

/// The Base64 encoding of `s`, padded with `=`.
pub open spec fn base64(s: Seq<u8>) -> Seq<u8>
    decreases s.len(),
{
    if s.len() == 0 {
        Seq::empty()
    } else if s.len() == 1 {
        base64_group(s[0], 0, 0).subrange(0, 2) + seq![0x3du8, 0x3du8]
    } else if s.len() == 2 {
        base64_group(s[0], s[1], 0).subrange(0, 3) + seq![0x3du8]
    } else {
        base64_group(s[0], s[1], s[2]) + base64(s.subrange(3, s.len() as int))
    }
}

/// Write the Base64 encoding of `data`.
pub fn write_base64(w: &mut Vec<u8>, data: &[u8])
    ensures
        final(w)@ == old(w)@ + base64(data@),
{
    let mut i: usize = 0;
    assert(data@.subrange(0, data@.len() as int) =~= data@);
    while data.len() - i >= 3
        invariant
            0 <= i <= data@.len(),
            w@ + base64(data@.subrange(i as int, data@.len() as int)) == old(w)@ + base64(data@),
        decreases data@.len() - i,
    {
        let ghost rest = data@.subrange(i as int, data@.len() as int);
        let ghost before = w@;
        let (a, b, c) = (data[i], data[i + 1], data[i + 2]);
        w.push(base64_char(a / 4));
        w.push(base64_char((a % 4) * 16 + b / 16));
        w.push(base64_char((b % 16) * 4 + c / 64));
        w.push(base64_char(c % 64));
        proof {
            assert(rest.subrange(3, rest.len() as int) =~= data@.subrange(
                i + 3,
                data@.len() as int,
            ));
            assert(w@ =~= before + base64_group(a, b, c));
            assert(w@ + base64(data@.subrange(i + 3, data@.len() as int)) =~= before + base64(
                rest,
            ));
        }
        i += 3;
    }
    let ghost rest = data@.subrange(i as int, data@.len() as int);
    let ghost before = w@;
    if data.len() - i == 1 {
        let a: u8 = data[i];
        assert(rest.len() == 1 && rest[0] == a);
        w.push(base64_char(a / 4));
        w.push(base64_char((a % 4) * 16));
        w.push(0x3d);
        w.push(0x3d);
        assert(w@ =~= before + base64(rest));
    } else if data.len() - i == 2 {
        let (a, b) = (data[i], data[i + 1]);
        assert(rest.len() == 2 && rest[0] == a && rest[1] == b);
        w.push(base64_char(a / 4));
        w.push(base64_char((a % 4) * 16 + b / 16));
        w.push(base64_char((b % 16) * 4));
        w.push(0x3d);
        assert(w@ =~= before + base64(rest));
    } else {
        assert(w@ =~= before + base64(rest));
    }
}

/// The selection letter of the system clipboard, `c`.
pub const SYSTEM_CLIPBOARD: u8 = 0x63;

/// The selection letter of the primary selection, `p`.
pub const PRIMARY_CLIPBOARD: u8 = 0x70;

/// The bytes that set a clipboard (`OSC 52`).
pub open spec fn set_clipboard_bytes(selection: u8, data: Seq<u8>) -> Seq<u8> {
    osc_text(52, seq![selection, 0x3bu8] + base64(data))
}

/// Set a clipboard; `data` is Base64-encoded for transport.
pub fn write_set_clipboard(w: &mut Vec<u8>, selection: u8, data: &[u8])
    ensures
        final(w)@ == old(w)@ + set_clipboard_bytes(selection, data@),
{
    let mut text: Vec<u8> = Vec::new();
    text.push(selection);
    text.push(0x3b);
    write_base64(&mut text, data);
    assert(text@ =~= seq![selection, 0x3bu8] + base64(data@));
    write_osc_text(w, 52, text.as_slice());
}

/// Query a clipboard (`OSC 52 ; selection ; ?`).
pub fn write_request_clipboard(w: &mut Vec<u8>, selection: u8)
    ensures
        final(w)@ == old(w)@ + osc_text(52, seq![selection, 0x3bu8, 0x3fu8]),
{
    let text: [u8; 3] = [selection, 0x3b, 0x3f];
    assert(text@ =~= seq![selection, 0x3bu8, 0x3fu8]);
    write_osc_text(w, 52, &text);
}

/// Base64 turns every three bytes, or what is left of them, into four.
pub proof fn law_base64_length(s: Seq<u8>)
    ensures
        base64(s).len() == 4 * ((s.len() + 2) / 3),
    decreases s.len(),
{
    if s.len() >= 3 {
        law_base64_length(s.subrange(3, s.len() as int));
    }
}

} // verus!
