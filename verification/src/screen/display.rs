//! What the frames of the renderer show on a terminal.

use crate::ansi::cursor::{
    count_bytes, cud_bytes, cuf_bytes, cup_bytes, cuu_bytes, insert_lines_bytes,
    reset_tab_stops_bytes, tab_stops_from, CLEAR_TAB_STOPS, SET_TAB_EVERY_8_COLUMNS, SET_TAB_STOP,
};
use crate::ansi::mode::{
    joined, mode_numbers, mode_sequence, number_sequence, reset_bytes, set_bytes, Mode, RESET_FINAL,
    SET_FINAL,
};
use crate::bytes::{
    digits, is_digit, lemma_decimal_of_digits, lemma_split_append, lemma_split_one, split, ESC,
};
use crate::layout::{Position, Size};
use crate::screen::renderer::{
    after_frame, cell_at, drawn, frame_drawn, horizontal_bytes, line_feeds, moved,
    rectangular, row_drawn, rows_drawn, shown, vertical_bytes, Cell, Pen, RendererView,
};
use crate::screen::terminal::{
    every_eighth, lemma_fed_append, lemma_fed_byte, lemma_fed_char, lemma_fed_sequence,
    lemma_one_argument, lemma_two_arguments, printable, Terminal,
};
use vstd::prelude::*;
use vstd::string::*;
use vstd::utf8::encode_utf8;

verus! {

/// The bytes of the literals that output is made of.
pub proof fn lemma_output_literals()
    ensures
        "\x1b[".spec_bytes() == seq![ESC, 0x5bu8],
        "\x1b[?".spec_bytes() == seq![ESC, 0x5bu8, 0x3fu8],
        "\x1b[J".spec_bytes() == seq![ESC, 0x5bu8, 0x4au8],
        "\x1b[K".spec_bytes() == seq![ESC, 0x5bu8, 0x4bu8],
        "A".spec_bytes() == seq![0x41u8],
        "B".spec_bytes() == seq![0x42u8],
        "C".spec_bytes() == seq![0x43u8],
        "H".spec_bytes() == seq![0x48u8],
        "L".spec_bytes() == seq![0x4cu8],
        ";".spec_bytes() == seq![0x3bu8],
        "\r".spec_bytes() == seq![0x0du8],
        "\r\n".spec_bytes() == seq![0x0du8, 0x0au8],
{
    broadcast use is_ascii_spec_bytes;

    reveal_strlit("\x1b[");
    reveal_strlit("\x1b[?");
    reveal_strlit("\x1b[J");
    reveal_strlit("\x1b[K");
    reveal_strlit("A");
    reveal_strlit("B");
    reveal_strlit("C");
    reveal_strlit("H");
    reveal_strlit("L");
    reveal_strlit(";");
    reveal_strlit("\r");
    reveal_strlit("\r\n");
    assert("\x1b[".is_ascii());
    assert("\x1b[?".is_ascii());
    assert("\x1b[J".is_ascii());
    assert("\x1b[K".is_ascii());
    assert("A".is_ascii());
    assert("B".is_ascii());
    assert("C".is_ascii());
    assert("H".is_ascii());
    assert("L".is_ascii());
    assert(";".is_ascii());
    assert("\r".is_ascii());
    assert("\r\n".is_ascii());
    assert("\x1b[".spec_bytes() =~= seq![ESC, 0x5bu8]);
    assert("\x1b[?".spec_bytes() =~= seq![ESC, 0x5bu8, 0x3fu8]);
    assert("\x1b[J".spec_bytes() =~= seq![ESC, 0x5bu8, 0x4au8]);
    assert("\x1b[K".spec_bytes() =~= seq![ESC, 0x5bu8, 0x4bu8]);
    assert("A".spec_bytes() =~= seq![0x41u8]);
    assert("B".spec_bytes() =~= seq![0x42u8]);
    assert("C".spec_bytes() =~= seq![0x43u8]);
    assert("H".spec_bytes() =~= seq![0x48u8]);
    assert("L".spec_bytes() =~= seq![0x4cu8]);
    assert(";".spec_bytes() =~= seq![0x3bu8]);
    assert("\r".spec_bytes() =~= seq![0x0du8]);
    assert("\r\n".spec_bytes() =~= seq![0x0du8, 0x0au8]);
}

/// What a sequence with one number does.
proof fn lemma_count(t: Terminal, n: nat, last: u8, text: Seq<u8>)
    requires
        t.pending.len() == 0,
        n > 0,
        last >= 0x40,
        text == seq![last],
    ensures
        t.fed(count_bytes(n, text)) == t.controlled(digits(n), last),
{
    lemma_output_literals();
    lemma_one_argument(n);
    lemma_fed_sequence(t, digits(n), last);
}

/// The cursor goes up as far as it is told, within the window.
pub proof fn law_cursor_up_moves_up(t: Terminal, n: nat)
    requires
        t.pending.len() == 0,
        n > 0,
    ensures
        t.fed(cuu_bytes(n)) == t.placed(t.x, t.y - n),
{
    lemma_output_literals();
    lemma_one_argument(n);
    lemma_count(t, n, 0x41, "A".spec_bytes());
}

/// The cursor goes down as far as it is told, within the window.
pub proof fn law_cursor_down_moves_down(t: Terminal, n: nat)
    requires
        t.pending.len() == 0,
        n > 0,
    ensures
        t.fed(cud_bytes(n)) == t.placed(t.x, t.y + n),
{
    lemma_output_literals();
    lemma_one_argument(n);
    lemma_count(t, n, 0x42, "B".spec_bytes());
}

/// The cursor goes right as far as it is told, within the window.
pub proof fn law_cursor_forward_moves_right(t: Terminal, n: nat)
    requires
        t.pending.len() == 0,
        n > 0,
    ensures
        t.fed(cuf_bytes(n)) == t.placed(t.x + n, t.y),
{
    lemma_output_literals();
    lemma_one_argument(n);
    lemma_count(t, n, 0x43, "C".spec_bytes());
}

/// Lines are inserted where the cursor is.
pub proof fn law_insert_lines_inserts_lines(t: Terminal, n: nat)
    requires
        t.pending.len() == 0,
        n > 0,
    ensures
        t.fed(insert_lines_bytes(n)) == t.inserted_lines(n as int),
{
    lemma_output_literals();
    lemma_one_argument(n);
    lemma_count(t, n, 0x4c, "L".spec_bytes());
}

/// The cursor goes to the column and row of the window that it is told, counted from zero.
pub proof fn law_cursor_position_places_cursor(t: Terminal, x: u16, y: u16)
    requires
        t.pending.len() == 0,
    ensures
        t.fed(cup_bytes(x, y)) == t.placed(x as int, t.top + y),
{
    lemma_output_literals();
    let (n, m) = ((y + 1) as nat, (x + 1) as nat);
    let params = digits(n) + seq![0x3bu8] + digits(m);
    lemma_two_arguments(n, m);
    lemma_one_argument(n);
    assert(params[0] == digits(n)[0]);
    lemma_fed_sequence(t, params, 0x48);
    assert(cup_bytes(x, y) =~= seq![ESC, 0x5bu8] + params + seq![0x48u8]);
}

/// A carriage return goes to the first column.
pub proof fn lemma_return(t: Terminal)
    requires
        t.pending.len() == 0,
    ensures
        t.fed("\r".spec_bytes()) == (Terminal { x: 0, wrap: false, ..t }),
{
    lemma_output_literals();
    lemma_fed_byte(t, 0x0d);
    assert(t.pending.push(0x0d) =~= seq![0x0du8]);
    assert(t.pending =~= Seq::empty());
}

/// A line feed goes to the next row.
pub proof fn lemma_line_feed(t: Terminal)
    requires
        t.pending.len() == 0,
    ensures
        t.fed(seq![0x0au8]) == t.fed_line(),
{
    lemma_fed_byte(t, 0x0a);
    assert(t.pending.push(0x0a) =~= seq![0x0au8]);
    assert(seq![0x0au8][0] != seq![0x0du8][0]);
    assert(t.pending =~= Seq::empty());
}

/// Line feeds go down by as many rows, and take the window along.
pub proof fn lemma_line_feeds(t: Terminal, n: int)
    requires
        t.steady(),
        n > 0,
    ensures
        t.fed(line_feeds(n)) == (Terminal {
            y: t.y + n,
            top: if t.y + n < t.top + t.height {
                t.top
            } else {
                t.y + n + 1 - t.height
            },
            wrap: false,
            ..t
        }),
    decreases n,
{
    let all = line_feeds(n);
    assert(all =~= line_feeds(n - 1) + seq![0x0au8]);
    lemma_fed_append(t, line_feeds(n - 1), seq![0x0au8]);
    if n > 1 {
        lemma_line_feeds(t, n - 1);
    } else {
        assert(line_feeds(0) =~= Seq::empty());
    }
    lemma_line_feed(t.fed(line_feeds(n - 1)));
}

/// Whether the terminal is where the renderer believes it to be: the first row of the area
/// is row `base`, and the cursor is at `at`. While moves are relative, an unknown cursor
/// counts as being on the first row; else the area is the window.
pub open spec fn aligned(t: Terminal, base: int, at: Option<Position>, relative: bool) -> bool {
    &&& t.steady()
    &&& !t.wrap
    &&& t.top <= base
    &&& !relative ==> t.top == base
    &&& match at {
        Some(pos) => t.x == pos.x && t.y == base + pos.y,
        None => relative ==> t.y == base,
    }
}

/// Whether two terminals show the same cells in windows of the same size, with the same
/// modes and settings.
pub open spec fn same_cells(t: Terminal, u: Terminal) -> bool {
    &&& t.width == u.width
    &&& t.height == u.height
    &&& t.cells == u.cells
    &&& t.modes == u.modes
    &&& t.settings == u.settings
}

/// A move between rows.
proof fn lemma_vertical(t: Terminal, base: int, from: u16, to: u16)
    requires
        t.steady(),
        !t.wrap,
        t.top <= base,
        t.y == base + from,
        to < t.height,
    ensures
        ({
            let u = t.fed(vertical_bytes(from, to));
            &&& u.steady()
            &&& !u.wrap
            &&& u.top <= base
            &&& u.x == t.x
            &&& u.y == base + to
            &&& same_cells(t, u)
        }),
{
    if to > from {
        lemma_line_feeds(t, to - from);
    } else if to < from {
        law_cursor_up_moves_up(t, (from - to) as nat);
    }
}

/// A move between columns.
proof fn lemma_horizontal(t: Terminal, from: u16, to: u16)
    requires
        t.steady(),
        !t.wrap,
        t.x == from,
        to < t.width,
    ensures
        ({
            let u = t.fed(horizontal_bytes(from, to));
            &&& u.steady()
            &&& !u.wrap
            &&& u.top == t.top
            &&& u.x == to
            &&& u.y == t.y
            &&& same_cells(t, u)
        }),
{
    if to != from {
        lemma_return(t);
        if to != 0 {
            lemma_fed_append(t, "\r".spec_bytes(), cuf_bytes(to as nat));
            law_cursor_forward_moves_right(t.fed("\r".spec_bytes()), to as nat);
        }
    }
}

/// A relative move from a known row.
proof fn lemma_relative_move(t: Terminal, base: int, from: Position, to: Position)
    requires
        aligned(t, base, Some(from), true),
        to.x < t.width,
        to.y < t.height,
    ensures
        ({
            let u = t.fed(vertical_bytes(from.y, to.y) + horizontal_bytes(from.x, to.x));
            aligned(u, base, Some(to), true) && same_cells(t, u)
        }),
{
    let v = vertical_bytes(from.y, to.y);
    let h = horizontal_bytes(from.x, to.x);
    lemma_fed_append(t, v, h);
    lemma_vertical(t, base, from.y, to.y);
    lemma_horizontal(t.fed(v), from.x, to.x);
}

/// The cursor ends where it is sent, and nothing else changes.
pub proof fn law_move_places_cursor(
    start: Terminal,
    base: int,
    pen: Pen,
    to: Position,
    relative: bool,
)
    requires
        aligned(start.fed(pen.bytes), base, pen.at, relative),
        to.x < start.fed(pen.bytes).width,
        to.y < start.fed(pen.bytes).height,
    ensures
        ({
            let t = start.fed(pen.bytes);
            let u = start.fed(moved(pen, to, relative).bytes);
            &&& aligned(u, base, Some(to), relative)
            &&& same_cells(t, u)
            &&& moved(pen, to, relative).at == Some(to)
        }),
{
    let t = start.fed(pen.bytes);
    if pen.at == Some(to) {
    } else if !relative {
        lemma_fed_append(start, pen.bytes, cup_bytes(to.x, to.y));
        law_cursor_position_places_cursor(t, to.x, to.y);
    } else {
        match pen.at {
            Some(from) => {
                let s = vertical_bytes(from.y, to.y) + horizontal_bytes(from.x, to.x);
                assert(moved(pen, to, relative).bytes =~= pen.bytes + s);
                lemma_fed_append(start, pen.bytes, s);
                lemma_relative_move(t, base, from, to);
            },
            None => {
                let r = "\r".spec_bytes();
                let s = vertical_bytes(0, to.y) + horizontal_bytes(0, to.x);
                assert(moved(pen, to, relative).bytes =~= (pen.bytes + r) + s);
                lemma_fed_append(start, pen.bytes, r);
                lemma_fed_append(start, pen.bytes + r, s);
                lemma_return(t);
                lemma_relative_move(t.fed(r), base, Position { x: 0, y: 0 }, to);
            },
        }
    }
}

/// A drawn cell shows its character at its column and row, and no other cell changes.
pub proof fn law_drawn_cell_is_shown(
    start: Terminal,
    base: int,
    pen: Pen,
    pos: Position,
    cell: Cell,
    width: u16,
    relative: bool,
)
    requires
        aligned(start.fed(pen.bytes), base, pen.at, relative),
        pos.x < width <= start.fed(pen.bytes).width,
        pos.y < start.fed(pen.bytes).height,
        printable(cell.glyph),
    ensures
        ({
            let t = start.fed(pen.bytes);
            let after = drawn(pen, pos, cell, width, relative);
            let u = start.fed(after.bytes);
            &&& aligned(u, base, after.at, relative)
            &&& u.width == t.width
            &&& u.height == t.height
            &&& u.modes == t.modes
            &&& u.settings == t.settings
            &&& forall|i: int, j: int|
                #[trigger] (u.cells)(i, j) == (if i == pos.x && j == base + pos.y {
                    cell.glyph
                } else {
                    (t.cells)(i, j)
                })
        }),
{
    let there = moved(pen, pos, relative);
    let t = start.fed(there.bytes);
    let text = encode_utf8(seq![cell.glyph]);
    law_move_places_cursor(start, base, pen, pos, relative);
    lemma_fed_append(start, there.bytes, text);
    lemma_fed_char(t, cell.glyph);
    let u = t.printed(cell.glyph);
    if pos.x + 1 < width {
    } else {
        lemma_fed_append(start, there.bytes + text, "\r".spec_bytes());
        lemma_return(u);
    }
}

/// Whether the area from row `base` on shows `rows`, for `width` columns and `height` rows.
pub open spec fn shows(
    t: Terminal,
    base: int,
    rows: Seq<Seq<Cell>>,
    width: int,
    height: int,
) -> bool {
    forall|x: int, y: int|
        0 <= x < width && 0 <= y < height ==> #[trigger] (t.cells)(x, base + y) == cell_at(
            rows,
            x,
            y,
        ).glyph
}

/// Whether every character of `rows` prints.
pub open spec fn printable_rows(rows: Seq<Seq<Cell>>) -> bool {
    forall|y: int, x: int|
        0 <= y < rows.len() && 0 <= x < rows[y].len() ==> printable((#[trigger] rows[y][x]).glyph)
}

/// Whether the cells before column `x` of row `y` are those of `front`, and the others those
/// of `back`.
spec fn shows_until(
    t: Terminal,
    base: int,
    front: Seq<Seq<Cell>>,
    back: Seq<Seq<Cell>>,
    width: int,
    x: int,
    y: int,
) -> bool {
    forall|i: int, j: int|
        0 <= i < width && 0 <= j < front.len() ==> #[trigger] (t.cells)(i, base + j) == (if j < y
            || (j == y && i < x) {
            cell_at(front, i, j).glyph
        } else {
            cell_at(back, i, j).glyph
        })
}

/// The cells of a row from column `x` on.
proof fn lemma_row_is_shown(
    start: Terminal,
    base: int,
    pen: Pen,
    front: Seq<Seq<Cell>>,
    back: Seq<Seq<Cell>>,
    width: u16,
    x: int,
    y: int,
    relative: bool,
)
    requires
        aligned(start.fed(pen.bytes), base, pen.at, relative),
        rectangular(front, width),
        printable_rows(front),
        width <= start.fed(pen.bytes).width,
        front.len() <= start.fed(pen.bytes).height,
        0 <= y < front.len(),
        0 <= x <= width,
        shows_until(start.fed(pen.bytes), base, front, back, width as int, x, y),
    ensures
        ({
            let t = start.fed(pen.bytes);
            let after = row_drawn(pen, front, back, x, y, relative);
            let u = start.fed(after.bytes);
            &&& aligned(u, base, after.at, relative)
            &&& u.width == t.width
            &&& u.height == t.height
            &&& u.modes == t.modes
            &&& u.settings == t.settings
            &&& shows_until(u, base, front, back, width as int, 0, y + 1)
        }),
    decreases width - x,
{
    let t = start.fed(pen.bytes);
    let row = front[y];
    assert(row.len() == width);
    if x >= row.len() {
    } else if row[x] == cell_at(back, x, y) {
        lemma_row_is_shown(start, base, pen, front, back, width, x + 1, y, relative);
    } else {
        let pos = Position { x: x as u16, y: y as u16 };
        let next = drawn(pen, pos, row[x], row.len() as u16, relative);
        assert(printable(front[y][x].glyph));
        law_drawn_cell_is_shown(start, base, pen, pos, row[x], width, relative);
        let u = start.fed(next.bytes);
        assert forall|i: int, j: int|
            0 <= i < width && 0 <= j < front.len() implies #[trigger] (u.cells)(i, base + j) == (
        if j < y || (j == y && i < x + 1) {
            cell_at(front, i, j).glyph
        } else {
            cell_at(back, i, j).glyph
        }) by {
            assert((t.cells)(i, base + j) == (t.cells)(i, base + j));
        }
        lemma_row_is_shown(start, base, next, front, back, width, x + 1, y, relative);
    }
}

/// The cells of the rows from `y` on.
proof fn lemma_rows_are_shown(
    start: Terminal,
    base: int,
    pen: Pen,
    front: Seq<Seq<Cell>>,
    back: Seq<Seq<Cell>>,
    width: u16,
    y: int,
    relative: bool,
)
    requires
        aligned(start.fed(pen.bytes), base, pen.at, relative),
        rectangular(front, width),
        printable_rows(front),
        width <= start.fed(pen.bytes).width,
        front.len() <= start.fed(pen.bytes).height,
        0 <= y <= front.len(),
        shows_until(start.fed(pen.bytes), base, front, back, width as int, 0, y),
    ensures
        ({
            let t = start.fed(pen.bytes);
            let after = rows_drawn(pen, front, back, y, relative);
            let u = start.fed(after.bytes);
            &&& aligned(u, base, after.at, relative)
            &&& u.width == t.width
            &&& u.height == t.height
            &&& u.modes == t.modes
            &&& u.settings == t.settings
            &&& shows(u, base, front, width as int, front.len() as int)
        }),
    decreases front.len() - y,
{
    if y < front.len() {
        let next = row_drawn(pen, front, back, 0, y, relative);
        lemma_row_is_shown(start, base, pen, front, back, width, 0, y, relative);
        lemma_rows_are_shown(start, base, next, front, back, width, y + 1, relative);
    }
}

/// Whether the terminal `t` is as the renderer `r` believes it to be, for an area of this
/// width and height: the cursor is where it is tracked, and the cells that count as shown are
/// shown.
pub open spec fn in_step(t: Terminal, base: int, r: RendererView, width: int, height: int) -> bool {
    &&& aligned(t, base, r.cursor, r.relative_cursor)
    &&& width <= t.width
    &&& height <= t.height
    &&& !r.clear ==> shows(t, base, r.back, width, height)
}

/// A frame brings the terminal in line: for every column and row of the area, the terminal
/// shows the staged character there, and its cursor is where the renderer tracks it.
/// `start` is the terminal before the bytes `out` that were staged earlier.
pub proof fn law_frame_shows_cells(
    start: Terminal,
    base: int,
    r: RendererView,
    front: Seq<Seq<Cell>>,
    width: u16,
    size: Size,
    out: Seq<u8>,
)
    requires
        rectangular(front, width),
        printable_rows(front),
        in_step(start.fed(out), base, r, width as int, front.len() as int),
    ensures
        ({
            let t = start.fed(out);
            let u = start.fed(frame_drawn(r, front, out).bytes);
            let after = after_frame(r, front, size, out);
            &&& forall|x: int, y: int|
                0 <= x < width && 0 <= y < front.len() ==> #[trigger] (u.cells)(x, base + y)
                    == front[y][x].glyph
            &&& match after.cursor {
                Some(pos) => u.x == pos.x && u.y == base + pos.y,
                None => true,
            }
            &&& in_step(u, base, after, width as int, front.len() as int)
            &&& u.modes == t.modes
            &&& u.settings == t.settings
            &&& u.width == t.width
            &&& u.height == t.height
        }),
{
    let t = start.fed(out);
    let first = Pen { bytes: out, at: r.cursor };
    let relative = r.relative_cursor;
    let back = shown(r);
    if r.clear {
        let origin = Position { x: 0, y: 0 };
        if front.len() == 0 || width == 0 {
            assert(t.width > 0 && t.height > 0);
        }
        law_move_places_cursor(start, base, first, origin, relative);
        let home = moved(first, origin, relative);
        let clear = "\x1b[J".spec_bytes();
        let h = start.fed(home.bytes);
        lemma_output_literals();
        lemma_fed_append(start, home.bytes, clear);
        lemma_fed_sequence(h, Seq::empty(), 0x4a);
        assert(clear =~= seq![ESC, 0x5bu8] + Seq::<u8>::empty() + seq![0x4au8]);
        assert(h.fed(clear) == h.erased_below());
        let ready = Pen { bytes: home.bytes + clear, ..home };
        lemma_rows_are_shown(start, base, ready, front, back, width, 0, relative);
    } else {
        lemma_rows_are_shown(start, base, first, front, back, width, 0, relative);
    }
    let u = start.fed(frame_drawn(r, front, out).bytes);
    assert forall|x: int, y: int| 0 <= x < width && 0 <= y < front.len() implies #[trigger] (
    u.cells)(x, base + y) == front[y][x].glyph by {
        assert(front[y].len() == width);
    }
}

/// Whether `u` differs from `t` in its modes alone, in that those of `changed` are `on`.
pub open spec fn modes_switched(
    t: Terminal,
    u: Terminal,
    changed: spec_fn(Mode) -> bool,
    on: bool,
) -> bool {
    &&& u == (Terminal { modes: u.modes, ..t })
    &&& forall|m: Mode| #[trigger]
        u.modes.contains(m) == (if changed(m) {
            on
        } else {
            t.modes.contains(m)
        })
}

/// The modes of a kind among `modes`.
pub open spec fn of_kind(modes: Seq<Mode>, dec: bool) -> spec_fn(Mode) -> bool {
    |m: Mode| modes.contains(m) && (m is Dec == dec)
}

/// The bytes of joined numbers name each of the modes.
proof fn lemma_joined_modes(t: Terminal, dec: bool, numbers: Seq<u16>, on: bool)
    requires
        numbers.len() > 0,
    ensures
        ({
            let u = t.switched(dec, split(joined(numbers), 0x3b), on);
            &&& u == (Terminal { modes: u.modes, ..t })
            &&& forall|m: Mode| #[trigger]
                u.modes.contains(m) == (if exists|i: int|
                    0 <= i < numbers.len() && m == mode_of(dec, #[trigger] numbers[i]) {
                    on
                } else {
                    t.modes.contains(m)
                })
        }),
        forall|i: int|
            0 <= i < joined(numbers).len() ==> 0x30 <= #[trigger] joined(numbers)[i] <= 0x3b,
        joined(numbers).len() > 0,
    decreases numbers.len(),
{
    lemma_output_literals();
    let n = numbers.last();
    let d = digits(n as nat);
    lemma_decimal_of_digits(n as nat);
    assert forall|i: int| 0 <= i < d.len() implies 0x30 <= #[trigger] d[i] <= 0x39 by {
        assert(is_digit(d[i]));
    }
    let fields = split(joined(numbers), 0x3b);
    if numbers.len() == 1 {
        lemma_split_one(d, 0x3b);
        assert(fields.drop_last() =~= Seq::<Seq<u8>>::empty());
        assert(t.switched(dec, fields.drop_last(), on) == t);
    } else {
        let front = numbers.drop_last();
        lemma_joined_modes(t, dec, front, on);
        lemma_split_append(joined(front), d, 0x3b);
        assert(fields.drop_last() =~= split(joined(front), 0x3b));
    }
    assert(fields.last() == d);
    let u = t.switched(dec, fields, on);
    let v = t.switched(dec, fields.drop_last(), on);
    assert forall|m: Mode| #[trigger] u.modes.contains(m) == (if exists|i: int|
        0 <= i < numbers.len() && m == mode_of(dec, #[trigger] numbers[i]) {
        on
    } else {
        t.modes.contains(m)
    }) by {
        assert(numbers[numbers.len() - 1] == n);
        if m == mode_of(dec, n) {
        } else {
            assert(u.modes.contains(m) == v.modes.contains(m));
            if exists|i: int| 0 <= i < numbers.len() && m == mode_of(dec, #[trigger] numbers[i]) {
                let i = choose|i: int|
                    0 <= i < numbers.len() && m == mode_of(dec, #[trigger] numbers[i]);
                assert(numbers.drop_last()[i] == numbers[i]);
            } else if numbers.len() > 1 {
                assert forall|i: int| 0 <= i < numbers.len() - 1 implies m != mode_of(
                    dec,
                    #[trigger] numbers.drop_last()[i],
                ) by {
                    assert(numbers.drop_last()[i] == numbers[i]);
                }
            }
        }
    }
}

/// The mode of a number.
pub open spec fn mode_of(dec: bool, n: u16) -> Mode {
    if dec {
        Mode::Dec(n)
    } else {
        Mode::Ansi(n)
    }
}

/// Numbers of modes belong to the modes.
proof fn lemma_mode_numbers(modes: Seq<Mode>, dec: bool, m: Mode)
    ensures
        (exists|i: int|
            0 <= i < mode_numbers(modes, dec).len() && m == mode_of(
                dec,
                #[trigger] mode_numbers(modes, dec)[i],
            )) <==> modes.contains(m) && (m is Dec == dec),
    decreases modes.len(),
{
    let all = mode_numbers(modes, dec);
    if modes.len() > 0 {
        let before = mode_numbers(modes.drop_last(), dec);
        lemma_mode_numbers(modes.drop_last(), dec, m);
        if modes.contains(m) && m is Dec == dec {
            if m == modes.last() {
                assert(m == mode_of(dec, all[all.len() - 1]));
            } else {
                let k = choose|k: int| 0 <= k < modes.len() && modes[k] == m;
                assert(modes.drop_last()[k] == m);
                let i = choose|i: int|
                    0 <= i < before.len() && m == mode_of(dec, #[trigger] before[i]);
                assert(all[i] == before[i]);
            }
        }
        if exists|i: int| 0 <= i < all.len() && m == mode_of(dec, #[trigger] all[i]) {
            let i = choose|i: int| 0 <= i < all.len() && m == mode_of(dec, #[trigger] all[i]);
            if i < before.len() {
                assert(before[i] == all[i]);
                let k = choose|k: int|
                    0 <= k < modes.drop_last().len() && modes.drop_last()[k] == m;
                assert(modes[k] == m);
            } else {
                assert(modes[modes.len() - 1] == m);
            }
        }
    }
}

/// One sequence for the modes of a kind.
proof fn lemma_number_sequence(t: Terminal, modes: Seq<Mode>, dec: bool, last: u8)
    requires
        t.pending.len() == 0,
        last == 0x68 || last == 0x6c,
    ensures
        ({
            let prefix = if dec {
                seq![ESC, 0x5bu8, 0x3fu8]
            } else {
                seq![ESC, 0x5bu8]
            };
            let u = t.fed(number_sequence(prefix, mode_numbers(modes, dec), last));
            modes_switched(t, u, of_kind(modes, dec), last == 0x68)
        }),
{
    let numbers = mode_numbers(modes, dec);
    let marker = if dec {
        seq![0x3fu8]
    } else {
        Seq::<u8>::empty()
    };
    let prefix = if dec {
        seq![ESC, 0x5bu8, 0x3fu8]
    } else {
        seq![ESC, 0x5bu8]
    };
    let s = number_sequence(prefix, numbers, last);
    if numbers.len() > 0 {
        let params = marker + joined(numbers);
        lemma_joined_modes(t, dec, numbers, last == 0x68);
        assert forall|i: int| 0 <= i < params.len() implies 0x20 <= #[trigger] params[i]
            <= 0x3f by {
            if i >= marker.len() {
                assert(params[i] == joined(numbers)[i - marker.len()]);
            }
        }
        lemma_fed_sequence(t, params, last);
        assert(s =~= seq![ESC, 0x5bu8] + params + seq![last]);
        if dec {
            assert(params.drop_first() =~= joined(numbers));
        } else {
            assert(params =~= joined(numbers));
        }
    }
    assert forall|m: Mode| (exists|i: int|
        0 <= i < numbers.len() && m == mode_of(dec, #[trigger] numbers[i])) == #[trigger] of_kind(
        modes,
        dec,
    )(m) by {
        lemma_mode_numbers(modes, dec, m);
    }
    assert(modes_switched(t, t.fed(s), of_kind(modes, dec), last == 0x68)) by {
        let u = t.fed(s);
        if numbers.len() > 0 {
            assert forall|m: Mode| #[trigger] u.modes.contains(m) == (if of_kind(modes, dec)(m) {
                last == 0x68
            } else {
                t.modes.contains(m)
            }) by {
                assert(of_kind(modes, dec)(m) || !of_kind(modes, dec)(m));
            }
        } else {
            assert forall|m: Mode| !#[trigger] of_kind(modes, dec)(m) by {}
        }
    }
}

/// The bytes that set or reset modes do so for each of them, and for no other.
pub proof fn law_mode_sequence_switches_modes(t: Terminal, modes: Seq<Mode>, on: bool)
    requires
        t.pending.len() == 0,
    ensures
        ({
            let u = t.fed(
                mode_sequence(
                    modes,
                    if on {
                        SET_FINAL
                    } else {
                        RESET_FINAL
                    },
                ),
            );
            modes_switched(t, u, |m: Mode| modes.contains(m), on)
        }),
{
    lemma_output_literals();
    let last = if on {
        SET_FINAL
    } else {
        RESET_FINAL
    };
    let a = number_sequence(seq![ESC, 0x5bu8, 0x3fu8], mode_numbers(modes, true), last);
    let b = number_sequence(seq![ESC, 0x5bu8], mode_numbers(modes, false), last);
    lemma_fed_append(t, a, b);
    lemma_number_sequence(t, modes, true, last);
    lemma_number_sequence(t.fed(a), modes, false, last);
    let u = t.fed(a + b);
    let v = t.fed(a);
    let changed = |m: Mode| modes.contains(m);
    assert forall|m: Mode| #[trigger] u.modes.contains(m) == (if changed(m) {
        on
    } else {
        t.modes.contains(m)
    }) by {
        assert(v.modes.contains(m) == (if of_kind(modes, true)(m) {
            on
        } else {
            t.modes.contains(m)
        }));
    }
}

/// The bytes that set one mode set it.
pub proof fn law_set_mode_sets_mode(t: Terminal, mode: Mode)
    requires
        t.pending.len() == 0,
    ensures
        t.fed(set_bytes(mode)) == (Terminal { modes: t.modes.insert(mode), ..t }),
{
    reveal(set_bytes);
    let one = seq![mode];
    assert(one[0] == mode);
    law_mode_sequence_switches_modes(t, one, true);
    assert(t.fed(set_bytes(mode)).modes =~= t.modes.insert(mode));
}

/// The bytes that reset one mode reset it.
pub proof fn law_reset_mode_resets_mode(t: Terminal, mode: Mode)
    requires
        t.pending.len() == 0,
    ensures
        t.fed(reset_bytes(mode)) == (Terminal { modes: t.modes.remove(mode), ..t }),
{
    reveal(reset_bytes);
    let one = seq![mode];
    assert(one[0] == mode);
    law_mode_sequence_switches_modes(t, one, false);
    assert(t.fed(reset_bytes(mode)).modes =~= t.modes.remove(mode));
}

/// A tab stop where the cursor is.
proof fn lemma_tab_stop(t: Terminal)
    requires
        t.pending.len() == 0,
    ensures
        t.fed(SET_TAB_STOP.spec_bytes()) == (Terminal { tabs: t.tabs.insert(t.x), ..t }),
{
    lemma_tab_literals();
    let s = seq![ESC, 0x48u8];
    assert(s =~= seq![ESC] + seq![0x48u8]);
    lemma_fed_append(t, seq![ESC], seq![0x48u8]);
    lemma_fed_byte(t, ESC);
    lemma_fed_byte(t.fed(seq![ESC]), 0x48);
    assert(t.pending.push(ESC) =~= seq![ESC]);
    assert(seq![ESC].push(0x48) =~= s);
    assert(t.pending =~= Seq::empty());
}

/// The bytes of the literals that tab stops are made of.
proof fn lemma_tab_literals()
    ensures
        SET_TAB_STOP.spec_bytes() == seq![ESC, 0x48u8],
        CLEAR_TAB_STOPS.spec_bytes() == seq![ESC, 0x5bu8, 0x33u8, 0x67u8],
        SET_TAB_EVERY_8_COLUMNS.spec_bytes() == seq![ESC, 0x5bu8, 0x3fu8, 0x35u8, 0x57u8],
{
    broadcast use is_ascii_spec_bytes;

    reveal_strlit("\x1bH");
    reveal_strlit("\x1b[3g");
    reveal_strlit("\x1b[?5W");
    assert(SET_TAB_STOP.is_ascii());
    assert(CLEAR_TAB_STOPS.is_ascii());
    assert(SET_TAB_EVERY_8_COLUMNS.is_ascii());
    assert(SET_TAB_STOP.spec_bytes() =~= seq![ESC, 0x48u8]);
    assert(CLEAR_TAB_STOPS.spec_bytes() =~= seq![ESC, 0x5bu8, 0x33u8, 0x67u8]);
    assert(SET_TAB_EVERY_8_COLUMNS.spec_bytes() =~= seq![ESC, 0x5bu8, 0x3fu8, 0x35u8, 0x57u8]);
}

/// The tab stops from `column` on.
proof fn lemma_tab_stops(t: Terminal, column: int)
    requires
        t.steady(),
        column >= 8,
        t.x == column - 8,
    ensures
        ({
            let u = t.fed(tab_stops_from(column, t.width));
            &&& u.pending.len() == 0
            &&& forall|c: int| #[trigger]
                u.tabs.contains(c) == (t.tabs.contains(c) || (column <= c < t.width && (c - column)
                    % 8 == 0))
            &&& u == (Terminal { x: u.x, wrap: u.wrap, tabs: u.tabs, ..t })
        }),
    decreases t.width - column + 8,
{
    if column < t.width {
        let step = cuf_bytes(8) + SET_TAB_STOP.spec_bytes();
        lemma_fed_append(t, cuf_bytes(8), SET_TAB_STOP.spec_bytes());
        law_cursor_forward_moves_right(t, 8);
        let a = t.fed(cuf_bytes(8));
        lemma_tab_stop(a);
        let b = t.fed(step);
        lemma_fed_append(t, step, tab_stops_from(column + 8, t.width));
        lemma_tab_stops(b, column + 8);
        let u = b.fed(tab_stops_from(column + 8, t.width));
        assert forall|c: int| #[trigger] u.tabs.contains(c) == (t.tabs.contains(c) || (column <= c
            < t.width && (c - column) % 8 == 0)) by {
            assert(b.tabs.contains(c) == (t.tabs.contains(c) || c == column));
            assert((c - column) % 8 == (c - (column + 8)) % 8);
        }
    } else {
        assert(t.fed(tab_stops_from(column, t.width)) == t);
    }
}

/// Both ways to tab stops every eight columns leave the terminal with those, and no others.
pub proof fn law_tab_stops_are_every_eighth(t: Terminal, width: u16)
    requires
        t.steady(),
        t.width == width,
    ensures
        t.fed(reset_tab_stops_bytes(width)).tabs == every_eighth(width as int),
        t.fed(SET_TAB_EVERY_8_COLUMNS.spec_bytes()).tabs == every_eighth(width as int),
        t.fed(reset_tab_stops_bytes(width)).cells == t.cells,
        t.fed(reset_tab_stops_bytes(width)).x == 0,
{
    lemma_tab_literals();
    let three = seq![0x33u8];
    let clear = CLEAR_TAB_STOPS.spec_bytes();
    let ret = "\r".spec_bytes();
    let stops = tab_stops_from(8, width as int);
    lemma_fed_sequence(t, three, 0x67);
    assert(clear =~= seq![ESC, 0x5bu8] + three + seq![0x67u8]);
    let a = t.fed(clear);
    lemma_fed_append(t, clear, ret);
    lemma_return(a);
    let b = a.fed(ret);
    lemma_fed_append(t, clear + ret, stops);
    lemma_tab_stops(b, 8);
    let c = b.fed(stops);
    lemma_fed_append(t, clear + ret + stops, ret);
    lemma_return(c);
    let u = c.fed(ret);
    assert forall|k: int| #[trigger] u.tabs.contains(k) == every_eighth(width as int).contains(
        k,
    ) by {
        assert(c.tabs.contains(k) == (8 <= k < width && (k - 8) % 8 == 0));
    }
    assert(u.tabs =~= every_eighth(width as int));
    let params = seq![0x3fu8, 0x35u8];
    lemma_fed_sequence(t, params, 0x57);
    assert(SET_TAB_EVERY_8_COLUMNS.spec_bytes() =~= seq![ESC, 0x5bu8] + params + seq![0x57u8]);
    assert(params.drop_first() =~= seq![0x35u8]);
    lemma_split_one(seq![0x35u8], 0x3b);
}

} // verus!
