//! Cursor movement, cursor style, and the pointer shape.

use crate::bytes::{append_decimal, append_str, digits};
use vstd::prelude::*;
use vstd::string::*;

verus! {

/// A cursor style, as DECSCUSR numbers them.
#[derive(Debug, Clone, Copy, PartialEq, Eq, Hash, Structural)]
pub enum CursorStyle {
    /// The terminal's default.
    Default,
    /// Blinking block.
    BlinkingBlock,
    /// Steady block.
    SteadyBlock,
    /// Blinking underline.
    BlinkingUnderline,
    /// Steady underline.
    SteadyUnderline,
    /// Blinking bar.
    BlinkingBar,
    /// Steady bar.
    SteadyBar,
}

impl CursorStyle {
    /// The DECSCUSR number of the style.
    #[verifier::allow_in_spec]
    pub fn number(self) -> u32
        returns
            (match self {
                CursorStyle::Default => 0u32,
                CursorStyle::BlinkingBlock => 1,
                CursorStyle::SteadyBlock => 2,
                CursorStyle::BlinkingUnderline => 3,
                CursorStyle::SteadyUnderline => 4,
                CursorStyle::BlinkingBar => 5,
                CursorStyle::SteadyBar => 6,
            }),
    {
        match self {
            CursorStyle::Default => 0,
            CursorStyle::BlinkingBlock => 1,
            CursorStyle::SteadyBlock => 2,
            CursorStyle::BlinkingUnderline => 3,
            CursorStyle::SteadyUnderline => 4,
            CursorStyle::BlinkingBar => 5,
            CursorStyle::SteadyBar => 6,
        }
    }
}

/// `ESC [ <n> SP q`.
pub open spec fn cursor_style_bytes(style: CursorStyle) -> Seq<u8> {
    "\x1b[".spec_bytes() + digits(style.number() as nat) + " q".spec_bytes()
}

/// Select a cursor style (DECSCUSR).
pub fn write_cursor_style(w: &mut Vec<u8>, style: CursorStyle)
    ensures
        final(w)@ == old(w)@ + cursor_style_bytes(style),
{
    append_str(w, "\x1b[");
    append_decimal(w, style.number());
    append_str(w, " q");
    assert(w@ =~= old(w)@ + cursor_style_bytes(style));
}

/// `ESC [ <n> <final>`.
pub open spec fn count_bytes(n: nat, last: Seq<u8>) -> Seq<u8> {
    "\x1b[".spec_bytes() + digits(n) + last
}

fn write_count(w: &mut Vec<u8>, n: u32, last: &str)
    ensures
        final(w)@ == old(w)@ + count_bytes(n as nat, last.spec_bytes()),
{
    append_str(w, "\x1b[");
    append_decimal(w, n);
    append_str(w, last);
    assert(w@ =~= old(w)@ + count_bytes(n as nat, last.spec_bytes()));
}

/// The bytes that move the cursor up.
pub open spec fn cuu_bytes(n: nat) -> Seq<u8> {
    count_bytes(n, "A".spec_bytes())
}

/// The bytes that move the cursor down.
pub open spec fn cud_bytes(n: nat) -> Seq<u8> {
    count_bytes(n, "B".spec_bytes())
}

/// The bytes that move the cursor right.
pub open spec fn cuf_bytes(n: nat) -> Seq<u8> {
    count_bytes(n, "C".spec_bytes())
}

/// The bytes that insert lines.
pub open spec fn insert_lines_bytes(n: nat) -> Seq<u8> {
    count_bytes(n, "L".spec_bytes())
}

/// Move the cursor up `n` lines.
pub fn write_cuu(w: &mut Vec<u8>, n: u32)
    ensures
        final(w)@ == old(w)@ + cuu_bytes(n as nat),
{
    write_count(w, n, "A");
}

/// Move the cursor down `n` lines.
pub fn write_cud(w: &mut Vec<u8>, n: u32)
    ensures
        final(w)@ == old(w)@ + cud_bytes(n as nat),
{
    write_count(w, n, "B");
}

/// Move the cursor right `n` columns.
pub fn write_cuf(w: &mut Vec<u8>, n: u32)
    ensures
        final(w)@ == old(w)@ + cuf_bytes(n as nat),
{
    write_count(w, n, "C");
}

/// Insert `n` lines at the cursor (IL).
pub fn write_insert_lines(w: &mut Vec<u8>, n: u32)
    ensures
        final(w)@ == old(w)@ + insert_lines_bytes(n as nat),
{
    write_count(w, n, "L");
}

/// `ESC [ <row> ; <column> H`, one-based.
pub open spec fn cup_bytes(x: u16, y: u16) -> Seq<u8> {
    "\x1b[".spec_bytes() + digits((y + 1) as nat) + ";".spec_bytes() + digits((x + 1) as nat)
        + "H".spec_bytes()
}

/// Move the cursor to the zero-based column `x` and row `y` (CUP).
pub fn write_cup(w: &mut Vec<u8>, x: u16, y: u16)
    ensures
        final(w)@ == old(w)@ + cup_bytes(x, y),
{
    append_str(w, "\x1b[");
    append_decimal(w, y as u32 + 1);
    append_str(w, ";");
    append_decimal(w, x as u32 + 1);
    append_str(w, "H");
    assert(w@ =~= old(w)@ + cup_bytes(x, y));
}

/// `OSC 22 ; <shape> ST`.
pub open spec fn pointer_shape_bytes(shape: Seq<u8>) -> Seq<u8> {
    "\x1b]22;".spec_bytes() + shape + "\x1b\\".spec_bytes()
}

/// Set the pointer shape by name.
pub fn write_set_pointer_shape(w: &mut Vec<u8>, shape: &str)
    ensures
        final(w)@ == old(w)@ + pointer_shape_bytes(shape.spec_bytes()),
{
    append_str(w, "\x1b]22;");
    append_str(w, shape);
    append_str(w, "\x1b\\");
    assert(w@ =~= old(w)@ + pointer_shape_bytes(shape.spec_bytes()));
}

/// Forget every tab stop: `ESC [ 3 g`.
pub const CLEAR_TAB_STOPS: &'static str = "\x1b[3g";

/// Set a tab stop at the cursor: `ESC H`.
pub const SET_TAB_STOP: &'static str = "\x1bH";

/// Tab stops every eight columns in one step (DECST8C): `ESC [ ? 5 W`.
pub const SET_TAB_EVERY_8_COLUMNS: &'static str = "\x1b[?5W";

/// Erase from the cursor to the end of the line: `ESC [ K`.
pub const ERASE_LINE_RIGHT: &'static str = "\x1b[K";

/// A tab stop at each multiple of eight from `column` on, below `width`.
pub open spec fn tab_stops_from(column: int, width: int) -> Seq<u8>
    decreases width - column + 8,
{
    if column >= width {
        Seq::empty()
    } else {
        cuf_bytes(8) + SET_TAB_STOP.spec_bytes() + tab_stops_from(column + 8, width)
    }
}

/// The portable way to tab stops every eight columns: clear, then set each.
pub open spec fn reset_tab_stops_bytes(width: u16) -> Seq<u8> {
    CLEAR_TAB_STOPS.spec_bytes() + "\r".spec_bytes() + tab_stops_from(8, width as int)
        + "\r".spec_bytes()
}

/// Set tab stops every eight columns, one by one.
pub fn write_reset_tab_stops_every_8(w: &mut Vec<u8>, width: u16)
    ensures
        final(w)@ == old(w)@ + reset_tab_stops_bytes(width),
{
    append_str(w, CLEAR_TAB_STOPS);
    append_str(w, "\r");
    let ghost start = w@;
    let mut column: u32 = 8;
    assert(w@ + tab_stops_from(8, width as int) =~= start + tab_stops_from(8, width as int));
    while column < width as u32
        invariant
            8 <= column <= 0x1_0008,
            w@ + tab_stops_from(column as int, width as int) == start + tab_stops_from(
                8,
                width as int,
            ),
        decreases width + 8 - column,
    {
        let ghost before = w@;
        write_cuf(w, 8);
        append_str(w, SET_TAB_STOP);
        assert(w@ + tab_stops_from(column + 8, width as int) =~= before + tab_stops_from(
            column as int,
            width as int,
        ));
        column += 8;
    }
    assert(w@ + tab_stops_from(column as int, width as int) =~= w@);
    append_str(w, "\r");
    assert(w@ =~= old(w)@ + reset_tab_stops_bytes(width));
}

} // verus!
