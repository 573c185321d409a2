//! Device Status Reports and cursor-position reports.
//!
//! ANSI DSR uses `ESC [ Ps n`; DEC-private DSR inserts `?`. Cursor reports use
//! final byte `R`, while light/dark and visibility reports use private DSR
//! numbers.

use crate::bytes::{append_decimal, append_str, digits};
use vstd::prelude::*;
use vstd::string::*;

verus! {

/// Request standard cursor position: `ESC [ 6 n`.
///
/// The terminal replies with CPR, `ESC [ <line> ; <column> R`, using one-based
/// coordinates.
pub const REQUEST_CURSOR_POSITION: &'static str = "\x1b[6n";

/// Request extended cursor position: `ESC [ ? 6 n`.
pub const REQUEST_EXTENDED_CURSOR_POSITION: &'static str = "\x1b[?6n";

/// Request light/dark preference report: `ESC [ ? 996 n`.
pub const REQUEST_LIGHT_DARK_REPORT: &'static str = "\x1b[?996n";

/// Request a terminal visibility report: `ESC [ ? 998 n`. The terminal replies
/// with `ESC [ ? 999 ; Ps n`.
pub const REQUEST_VISIBILITY_REPORT: &'static str = "\x1b[?998n";

/// Write [`REQUEST_CURSOR_POSITION`].
pub fn write_request_cursor_position(w: &mut Vec<u8>)
    ensures
        final(w)@ == old(w)@ + "\x1b[6n".spec_bytes(),
{
    append_str(w, REQUEST_CURSOR_POSITION);
}

/// Write [`REQUEST_EXTENDED_CURSOR_POSITION`].
pub fn write_request_extended_cursor_position(w: &mut Vec<u8>)
    ensures
        final(w)@ == old(w)@ + "\x1b[?6n".spec_bytes(),
{
    append_str(w, REQUEST_EXTENDED_CURSOR_POSITION);
}

/// Write [`REQUEST_LIGHT_DARK_REPORT`].
pub fn write_request_light_dark_report(w: &mut Vec<u8>)
    ensures
        final(w)@ == old(w)@ + "\x1b[?996n".spec_bytes(),
{
    append_str(w, REQUEST_LIGHT_DARK_REPORT);
}

/// Write [`REQUEST_VISIBILITY_REPORT`].
pub fn write_request_visibility_report(w: &mut Vec<u8>)
    ensures
        final(w)@ == old(w)@ + "\x1b[?998n".spec_bytes(),
{
    append_str(w, REQUEST_VISIBILITY_REPORT);
}

/// `ESC [`, with the `?` of a DEC-private sequence where `dec` holds.
pub open spec fn csi_prefix(dec: bool) -> Seq<u8> {
    if dec {
        "\x1b[?".spec_bytes()
    } else {
        "\x1b[".spec_bytes()
    }
}

fn write_csi_prefix(w: &mut Vec<u8>, dec: bool)
    ensures
        final(w)@ == old(w)@ + csi_prefix(dec),
{
    if dec {
        append_str(w, "\x1b[?");
    } else {
        append_str(w, "\x1b[");
    }
}

/// Encode a Device Status Report request: `ESC [ <ps> n`, or `ESC [ ? <ps> n`
/// where `dec` holds.
pub fn write_dsr_request(w: &mut Vec<u8>, dec: bool, ps: u16)
    ensures
        final(w)@ == old(w)@ + (csi_prefix(dec) + digits(ps as nat) + "n".spec_bytes()),
{
    write_csi_prefix(w, dec);
    append_decimal(w, ps as u32);
    append_str(w, "n");
    assert(w@ =~= old(w)@ + (csi_prefix(dec) + digits(ps as nat) + "n".spec_bytes()));
}

/// A one-based coordinate: at least `1`.
pub open spec fn one_based(v: u16) -> nat {
    if v < 1 {
        1
    } else {
        v as nat
    }
}

/// `<line> ; <column>`, both at least `1`.
pub open spec fn line_and_column(line: u16, column: u16) -> Seq<u8> {
    digits(one_based(line)) + ";".spec_bytes() + digits(one_based(column))
}

/// The bytes of a Cursor Position Report.
pub open spec fn cpr_bytes(line: u16, column: u16) -> Seq<u8> {
    csi_prefix(false) + line_and_column(line, column) + "R".spec_bytes()
}

/// The bytes of an extended Cursor Position Report; page `0` is left out.
pub open spec fn decxcpr_bytes(line: u16, column: u16, page: u16) -> Seq<u8> {
    csi_prefix(true) + line_and_column(line, column) + (if page == 0 {
        Seq::<u8>::empty()
    } else {
        ";".spec_bytes() + digits(page as nat)
    }) + "R".spec_bytes()
}

fn write_line_and_column(w: &mut Vec<u8>, line: u16, column: u16)
    ensures
        final(w)@ == old(w)@ + line_and_column(line, column),
{
    append_decimal(
        w,
        if line < 1 {
            1
        } else {
            line as u32
        },
    );
    append_str(w, ";");
    append_decimal(
        w,
        if column < 1 {
            1
        } else {
            column as u32
        },
    );
    assert(w@ =~= old(w)@ + line_and_column(line, column));
}

/// Encode a Cursor Position Report, `ESC [ <line> ; <column> R`.
///
/// `line` and `column` are one-based; values less than `1` are clamped to `1`.
pub fn write_cpr(w: &mut Vec<u8>, line: u16, column: u16)
    ensures
        final(w)@ == old(w)@ + cpr_bytes(line, column),
{
    write_csi_prefix(w, false);
    write_line_and_column(w, line, column);
    append_str(w, "R");
    assert(w@ =~= old(w)@ + cpr_bytes(line, column));
}

/// Encode an extended Cursor Position Report.
///
/// With `page == 0`, emits `ESC [ ? <line> ; <column> R`; otherwise
/// `ESC [ ? <line> ; <column> ; <page> R`. `line` and `column` are clamped to at
/// least `1`.
pub fn write_decxcpr(w: &mut Vec<u8>, line: u16, column: u16, page: u16)
    ensures
        final(w)@ == old(w)@ + decxcpr_bytes(line, column, page),
{
    write_csi_prefix(w, true);
    write_line_and_column(w, line, column);
    if page != 0 {
        append_str(w, ";");
        append_decimal(w, page as u32);
    }
    append_str(w, "R");
    assert(w@ =~= old(w)@ + decxcpr_bytes(line, column, page));
}

/// The bytes of a light/dark report.
pub open spec fn light_dark_bytes(dark: bool) -> Seq<u8> {
    if dark {
        "\x1b[?997;1n".spec_bytes()
    } else {
        "\x1b[?997;2n".spec_bytes()
    }
}

/// Encode a light/dark report: `ESC [ ? 997 ; 1 n` for dark, `; 2 n` for light.
pub fn write_light_dark_report(w: &mut Vec<u8>, dark: bool)
    ensures
        final(w)@ == old(w)@ + light_dark_bytes(dark),
{
    if dark {
        append_str(w, "\x1b[?997;1n");
    } else {
        append_str(w, "\x1b[?997;2n");
    }
}

/// The bytes of a visibility report.
pub open spec fn visibility_bytes(visible: bool) -> Seq<u8> {
    if visible {
        "\x1b[?999;1n".spec_bytes()
    } else {
        "\x1b[?999;2n".spec_bytes()
    }
}

/// Encode a terminal visibility report: `ESC [ ? 999 ; 1 n` for potentially
/// visible, `; 2 n` for not visible.
pub fn write_visibility_report(w: &mut Vec<u8>, visible: bool)
    ensures
        final(w)@ == old(w)@ + visibility_bytes(visible),
{
    if visible {
        append_str(w, "\x1b[?999;1n");
    } else {
        append_str(w, "\x1b[?999;2n");
    }
}

} // verus!
