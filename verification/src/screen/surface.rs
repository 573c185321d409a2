//! What the terminal shows of a [`Screen`](crate::screen::Screen).

use crate::ansi::cursor::{insert_lines_bytes, ERASE_LINE_RIGHT};
use crate::ansi::mode::{reset_bytes, set_bytes, Mode};
use crate::bytes::{lemma_split_append, lemma_split_one, split, ESC};
use crate::layout::Position;
use crate::screen::display::{
    aligned, in_step, law_cursor_down_moves_down, law_cursor_up_moves_up, law_frame_shows_cells,
    law_insert_lines_inserts_lines, law_move_places_cursor, law_reset_mode_resets_mode,
    law_set_mode_sets_mode, lemma_line_feed, lemma_line_feeds, lemma_output_literals, lemma_return,
    printable_rows, same_cells,
};
use crate::screen::renderer::{
    after_frame, frame_changes, frame_drawn, line_feeds, rectangular, Pen,
};
use crate::screen::terminal::{
    lemma_encoding, lemma_fed_append, lemma_fed_char, lemma_fed_sequence, printable, Terminal,
};
use crate::screen::{
    clamped, cursor_row, cursor_sent, cursor_shifted, down_bytes, framed, hides_cursor,
    insert_above_bytes, inserted_above, inserted_rows, line_bytes, rendered, staged, up_bytes,
    ScreenView,
};
use vstd::arithmetic::div_mod::{
    lemma_div_is_ordered, lemma_div_pos_is_pos, lemma_fundamental_div_mod,
    lemma_fundamental_div_mod_converse, lemma_mod_bound,
};
use vstd::prelude::*;
use vstd::string::*;
use vstd::utf8::*;

verus! {

/// Whether the terminal that has been sent what `s` stages is as `s` believes it to be: the
/// cells that count as shown are shown, the cursor is where it is tracked and as visible as it
/// is tracked, and no frame is held back. The first row of the managed area is row `base`.
pub open spec fn screen_in_step(start: Terminal, base: int, s: ScreenView) -> bool {
    let t = start.fed(s.out);
    &&& in_step(t, base, s.renderer, s.size.width as int, s.size.height as int)
    &&& t.modes.contains(Mode::cursor_visible()) == s.state.cursor_visible
    &&& !t.modes.contains(Mode::synchronized_output())
}

/// A mode set.
proof fn lemma_staged_set(start: Terminal, s: ScreenView, mode: Mode)
    requires
        start.fed(s.out).pending.len() == 0,
    ensures
        start.fed(staged(s, set_bytes(mode)).out) == (Terminal {
            modes: start.fed(s.out).modes.insert(mode),
            ..start.fed(s.out)
        }),
{
    lemma_fed_append(start, s.out, set_bytes(mode));
    law_set_mode_sets_mode(start.fed(s.out), mode);
}

/// A mode reset.
proof fn lemma_staged_reset(start: Terminal, s: ScreenView, mode: Mode)
    requires
        start.fed(s.out).pending.len() == 0,
    ensures
        start.fed(staged(s, reset_bytes(mode)).out) == (Terminal {
            modes: start.fed(s.out).modes.remove(mode),
            ..start.fed(s.out)
        }),
{
    lemma_fed_append(start, s.out, reset_bytes(mode));
    law_reset_mode_resets_mode(start.fed(s.out), mode);
}

/// A cursor that is sent to a position is there, and no cell changes.
pub proof fn law_sent_cursor_arrives(start: Terminal, base: int, s: ScreenView, to: Position)
    requires
        aligned(start.fed(s.out), base, s.renderer.cursor, s.renderer.relative_cursor),
        to.x < start.fed(s.out).width,
        to.y < start.fed(s.out).height,
    ensures
        ({
            let u = start.fed(cursor_sent(s, to).out);
            &&& u.x == to.x
            &&& u.y == base + to.y
            &&& same_cells(start.fed(s.out), u)
            &&& cursor_sent(s, to).renderer.cursor == Some(to)
            &&& aligned(u, base, Some(to), s.renderer.relative_cursor)
        }),
{
    law_move_places_cursor(
        start,
        base,
        Pen { bytes: s.out, at: s.renderer.cursor },
        to,
        s.renderer.relative_cursor,
    );
}

/// A cursor that is moved by columns and rows goes that far, and stops at the first column and
/// row of the area.
pub proof fn law_shifted_cursor_goes_that_far(
    start: Terminal,
    base: int,
    s: ScreenView,
    from: Position,
    dx: i16,
    dy: i16,
)
    requires
        aligned(start.fed(s.out), base, Some(from), s.renderer.relative_cursor),
        s.renderer.cursor == Some(from),
        from.x + dx < start.fed(s.out).width <= u16::MAX,
        from.y + dy < start.fed(s.out).height <= u16::MAX,
    ensures
        ({
            let u = start.fed(cursor_shifted(s, dx, dy).out);
            &&& from.x + dx >= 0 ==> u.x == from.x + dx
            &&& from.x + dx < 0 ==> u.x == 0
            &&& from.y + dy >= 0 ==> u.y == base + from.y + dy
            &&& from.y + dy < 0 ==> u.y == base
            &&& same_cells(start.fed(s.out), u)
        }),
{
    let to = Position {
        x: if from.x + dx < 0 {
            0
        } else {
            (from.x + dx) as u16
        },
        y: if from.y + dy < 0 {
            0
        } else {
            (from.y + dy) as u16
        },
    };
    law_sent_cursor_arrives(start, base, s, to);
}

/// Whether the terminal shows the staged cells of `s`, each at its column and row.
pub open spec fn shows_staged(t: Terminal, base: int, s: ScreenView) -> bool {
    forall|x: int, y: int|
        0 <= x < s.size.width && 0 <= y < s.size.height ==> #[trigger] (t.cells)(x, base + y)
            == s.front[y][x].glyph
}

/// One frame.
proof fn lemma_framed(start: Terminal, base: int, s: ScreenView)
    requires
        rectangular(s.front, s.size.width),
        s.front.len() == s.size.height,
        printable_rows(s.front),
        screen_in_step(start, base, s),
    ensures
        ({
            let after = framed(s);
            let u = start.fed(after.out);
            &&& shows_staged(u, base, s)
            &&& screen_in_step(start, base, after)
            &&& u.modes == start.fed(s.out).modes
            &&& u.settings == start.fed(s.out).settings
            &&& s.state.desired_cursor is Some ==> after.renderer.cursor == Some(
                clamped(s.state.desired_cursor->0, s.size),
            )
        }),
{
    let t = start.fed(s.out);
    let a = if s.state.sync_updates {
        lemma_staged_set(start, s, Mode::synchronized_output());
        staged(s, set_bytes(Mode::synchronized_output()))
    } else {
        s
    };
    let b = if hides_cursor(s.state) {
        lemma_staged_reset(start, a, Mode::cursor_visible());
        staged(a, reset_bytes(Mode::cursor_visible()))
    } else {
        a
    };
    law_frame_shows_cells(start, base, b.renderer, b.front, s.size.width, b.size, b.out);
    let c = ScreenView {
        out: frame_drawn(b.renderer, b.front, b.out).bytes,
        renderer: after_frame(b.renderer, b.front, b.size, b.out),
        ..b
    };
    let d = match s.state.desired_cursor {
        Some(pos) => {
            law_sent_cursor_arrives(start, base, c, clamped(pos, s.size));
            cursor_sent(c, clamped(pos, s.size))
        },
        None => c,
    };
    let e = if hides_cursor(s.state) {
        lemma_staged_set(start, d, Mode::cursor_visible());
        staged(d, set_bytes(Mode::cursor_visible()))
    } else {
        d
    };
    if s.state.sync_updates {
        lemma_staged_reset(start, e, Mode::synchronized_output());
    }
    assert(start.fed(framed(s).out).modes =~= t.modes);
}

/// Rendering brings the terminal in line with the staged frame: for every column and row of
/// the managed area the terminal shows the staged character there. The cursor is where the
/// application wants it, or at the nearest edge, and where it is tracked. The terminal's
/// modes are as before, and nothing is left for another frame.
pub proof fn law_render_shows_staged_cells(start: Terminal, base: int, s: ScreenView)
    requires
        rectangular(s.front, s.size.width),
        s.front.len() == s.size.height,
        printable_rows(s.front),
        screen_in_step(start, base, s),
    ensures
        ({
            let after = rendered(s);
            let u = start.fed(after.out);
            &&& shows_staged(u, base, s)
            &&& match s.state.desired_cursor {
                Some(pos) => s.size.width > 0 && s.size.height > 0 ==> {
                    &&& pos.x < s.size.width ==> u.x == pos.x
                    &&& pos.x >= s.size.width ==> u.x == s.size.width - 1
                    &&& pos.y < s.size.height ==> u.y == base + pos.y
                    &&& pos.y >= s.size.height ==> u.y == base + s.size.height - 1
                },
                None => true,
            }
            &&& match after.renderer.cursor {
                Some(pos) => u.x == pos.x && u.y == base + pos.y,
                None => true,
            }
            &&& screen_in_step(start, base, after)
            &&& u.modes == start.fed(s.out).modes
            &&& u.settings == start.fed(s.out).settings
            &&& after.front == s.front
            &&& rendered(after) == after
        }),
{
    let t = start.fed(s.out);
    if rendered(s) == framed(s) {
        lemma_framed(start, base, s);
    }
    if !frame_changes(s.renderer, s.front) {
        assert forall|x: int, y: int|
            0 <= x < s.size.width && 0 <= y < s.size.height implies #[trigger] (t.cells)(
            x,
            base + y,
        ) == s.front[y][x].glyph by {
            assert(s.front[y].len() == s.size.width);
        }
    }
}

/// The cell of character `n` of a text that fills rows of `width` columns.
pub open spec fn place(n: int, width: int) -> (int, int) {
    (n % width, n / width)
}

/// The character after the one at a cell is in the next column, or in the first one of the
/// next row.
proof fn lemma_next_place(n: int, width: int)
    requires
        n >= 0,
        width > 0,
    ensures
        0 <= place(n, width).0 < width,
        place(n, width).1 >= 0,
        place(n + 1, width) == (if place(n, width).0 + 1 < width {
            (place(n, width).0 + 1, place(n, width).1)
        } else {
            (0, place(n, width).1 + 1)
        }),
{
    let (c, r) = place(n, width);
    lemma_fundamental_div_mod(n, width);
    lemma_mod_bound(n, width);
    lemma_div_pos_is_pos(n, width);
    if c + 1 < width {
        lemma_fundamental_div_mod_converse(n + 1, width, r, c + 1);
    } else {
        assert(width * r + width == (r + 1) * width) by (nonlinear_arith);
        lemma_fundamental_div_mod_converse(n + 1, width, r + 1, 0);
    }
}

/// Characters that come later are in later cells.
proof fn lemma_places_differ(a: int, b: int, width: int)
    requires
        0 <= a,
        0 <= b,
        a != b,
        width > 0,
    ensures
        place(a, width) != place(b, width),
{
    lemma_fundamental_div_mod(a, width);
    lemma_fundamental_div_mod(b, width);
}

/// Rows never decrease along a text.
proof fn lemma_rows_grow(a: int, b: int, width: int)
    requires
        0 <= a <= b,
        width > 0,
    ensures
        a / width <= b / width,
{
    lemma_div_is_ordered(a, b, width);
}

/// The encoding of text, character by character.
proof fn lemma_encode_push(a: Seq<char>, c: char)
    ensures
        encode_utf8(a.push(c)) == encode_utf8(a) + encode_utf8(seq![c]),
    decreases a.len(),
{
    if a.len() == 0 {
        assert(a.push(c) =~= seq![c]);
        assert(encode_utf8(a) + encode_utf8(seq![c]) =~= encode_utf8(seq![c]));
    } else {
        lemma_encode_push(a.drop_first(), c);
        assert(a.push(c).drop_first() =~= a.drop_first().push(c));
        assert(encode_utf8(a.push(c)) =~= encode_utf8(a) + encode_utf8(seq![c]));
    }
}

/// The encoding of joined texts.
proof fn lemma_encode_append(a: Seq<char>, b: Seq<char>)
    ensures
        encode_utf8(a + b) == encode_utf8(a) + encode_utf8(b),
    decreases b.len(),
{
    if b.len() == 0 {
        assert(a + b =~= a);
        assert(encode_utf8(a) + encode_utf8(b) =~= encode_utf8(a));
    } else {
        lemma_encode_append(a, b.drop_last());
        lemma_encode_push(a + b.drop_last(), b.last());
        lemma_encode_push(b.drop_last(), b.last());
        assert((a + b.drop_last()).push(b.last()) =~= a + b);
        assert(b.drop_last().push(b.last()) =~= b);
        assert(encode_utf8(a + b) =~= encode_utf8(a) + encode_utf8(b));
    }
}

/// Whether every character of `text` prints.
pub open spec fn printable_text(text: Seq<char>) -> bool {
    forall|i: int| 0 <= i < text.len() ==> printable(#[trigger] text[i])
}

/// The encoding of text that prints holds no control byte.
proof fn lemma_text_bytes(text: Seq<char>)
    requires
        printable_text(text),
    ensures
        forall|i: int| 0 <= i < encode_utf8(text).len() ==> #[trigger] encode_utf8(text)[i] >= 0x20,
    decreases text.len(),
{
    if text.len() > 0 {
        let front = text.drop_last();
        lemma_text_bytes(front);
        lemma_encode_push(front, text.last());
        assert(front.push(text.last()) =~= text);
        let c = text[text.len() - 1];
        lemma_encoding(c);
        let one = encode_utf8(seq![c]);
        assert(seq![c].drop_first() =~= Seq::<char>::empty());
        assert(encode_utf8(seq![c].drop_first()) =~= Seq::<u8>::empty());
        assert(one =~= encode_scalar(c as u32));
        assert forall|i: int| 0 <= i < encode_utf8(text).len() implies #[trigger] encode_utf8(
            text,
        )[i] >= 0x20 by {
            let k = encode_utf8(front).len();
            if i >= k {
                assert(encode_utf8(text)[i] == one[i - k]);
            } else {
                assert(encode_utf8(text)[i] == encode_utf8(front)[i]);
            }
        }
    }
}

/// The encoding of text that prints holds no `ESC`.
pub proof fn lemma_plain_encoding(text: Seq<char>)
    requires
        printable_text(text),
    ensures
        forall|i: int|
            0 <= i < encode_utf8(text).len() ==> #[trigger] encode_utf8(text)[i] != ESC,
{
    lemma_text_bytes(text);
}

/// Whether the text of `line`, written from the first column of row `row` on, is shown.
pub open spec fn shows_line(t: Terminal, row: int, line: Seq<char>, n: int) -> bool {
    forall|k: int|
        0 <= k < n ==> (t.cells)(place(k, t.width).0, row + place(k, t.width).1)
            == #[trigger] line[k]
}

/// Whether two terminals show the same outside the rows from `from` up to `to`, in windows of
/// the same size and place.
pub open spec fn same_outside(t: Terminal, u: Terminal, from: int, to: int) -> bool {
    &&& t.width == u.width
    &&& t.height == u.height
    &&& t.top == u.top
    &&& t.modes == u.modes
    &&& t.settings == u.settings
    &&& forall|i: int, j: int|
        j < from || j >= to ==> #[trigger] (u.cells)(i, j) == (t.cells)(i, j)
}

/// The first `n` characters of a line.
proof fn lemma_text_is_shown(t: Terminal, line: Seq<char>, n: int)
    requires
        t.steady(),
        !t.wrap,
        t.x == 0,
        printable_text(line),
        0 <= n <= line.len(),
        t.y + line.len() as int / t.width < t.top + t.height,
    ensures
        ({
            let u = t.fed(encode_utf8(line.subrange(0, n)));
            let (c, r) = place(n, t.width);
            &&& u.steady()
            &&& same_outside(t, u, t.y, t.y + r + 1)
            &&& shows_line(u, t.y, line, n)
            &&& u.wrap == (n > 0 && c == 0)
            &&& u.wrap ==> u.y == t.y + r - 1
            &&& !u.wrap ==> u.y == t.y + r && u.x == c
        }),
    decreases n,
{
    let text = line.subrange(0, n);
    let w = t.width;
    if n == 0 {
        assert(text =~= Seq::<char>::empty());
        assert(encode_utf8(text) =~= Seq::<u8>::empty());
        lemma_fundamental_div_mod_converse(0, w, 0, 0);
    } else {
        let front = line.subrange(0, n - 1);
        let c = line[n - 1];
        lemma_text_is_shown(t, line, n - 1);
        lemma_encode_push(front, c);
        assert(front.push(c) =~= text);
        let v = t.fed(encode_utf8(front));
        lemma_fed_append(t, encode_utf8(front), encode_utf8(seq![c]));
        assert(printable(line[n - 1]));
        lemma_fed_char(v, c);
        let u = v.printed(c);
        lemma_next_place(n - 1, w);
        lemma_rows_grow(n - 1, line.len() as int, w);
        let (pc, pr) = place(n - 1, w);
        assert((u.cells)(pc, t.y + pr) == c);
        assert forall|k: int| 0 <= k < n implies (u.cells)(
            place(k, u.width).0,
            t.y + place(k, u.width).1,
        ) == #[trigger] line[k] by {
            if k < n - 1 {
                lemma_places_differ(k, n - 1, w);
                assert((v.cells)(place(k, v.width).0, t.y + place(k, v.width).1) == line[k]);
            }
        }
    }
}

/// How many rows a line takes up: one, and one more for every time it fills a row.
pub open spec fn line_rows(line: Seq<char>, width: int) -> int {
    1 + line.len() as int / width
}

/// How many rows the first `n` lines take up.
pub open spec fn rows_of(lines: Seq<Seq<char>>, width: int, n: int) -> int
    decreases n,
{
    if n <= 0 {
        0
    } else {
        rows_of(lines, width, n - 1) + line_rows(lines[n - 1], width)
    }
}

/// Whether `line` prints, and does not end exactly at the edge of a terminal of this width.
pub open spec fn plain_line(line: Seq<char>, width: int) -> bool {
    printable_text(line) && (line.len() == 0 || line.len() as int % width != 0)
}

/// One line, cleared to its end, and the way to the next row.
proof fn lemma_line_is_shown(t: Terminal, line: Seq<char>)
    requires
        t.steady(),
        !t.wrap,
        t.x == 0,
        plain_line(line, t.width),
        t.y + line_rows(line, t.width) < t.top + t.height,
    ensures
        ({
            let u = t.fed(
                encode_utf8(line) + ERASE_LINE_RIGHT.spec_bytes() + "\r\n".spec_bytes(),
            );
            &&& u.steady()
            &&& !u.wrap
            &&& u.x == 0
            &&& u.y == t.y + line_rows(line, t.width)
            &&& same_outside(t, u, t.y, u.y)
            &&& shows_line(u, t.y, line, line.len() as int)
        }),
{
    let w = t.width;
    let n = line.len() as int;
    let text = encode_utf8(line);
    let erase = ERASE_LINE_RIGHT.spec_bytes();
    let ret = "\r".spec_bytes();
    let feed = seq![0x0au8];
    lemma_output_literals();
    assert(line.subrange(0, n) =~= line);
    lemma_text_is_shown(t, line, n);
    let a = t.fed(text);
    lemma_next_place(n, w);
    lemma_fed_append(t, text, erase);
    lemma_fed_sequence(a, Seq::empty(), 0x4b);
    assert(erase =~= seq![ESC, 0x5bu8] + Seq::<u8>::empty() + seq![0x4bu8]);
    let b = a.erased_line();
    assert(a.fed(erase) == b);
    assert("\r\n".spec_bytes() =~= ret + feed);
    lemma_fed_append(t, text + erase, "\r\n".spec_bytes());
    lemma_fed_append(b, ret, feed);
    lemma_return(b);
    lemma_line_feed(b.fed(ret));
    let u = b.fed(ret + feed);
    let (c, r) = place(n, w);
    assert forall|k: int| 0 <= k < n implies (u.cells)(
        place(k, u.width).0,
        t.y + place(k, u.width).1,
    ) == #[trigger] line[k] by {
        lemma_rows_grow(k, n, w);
        assert((a.cells)(place(k, a.width).0, t.y + place(k, a.width).1) == line[k]);
        if place(k, w).1 == r {
            lemma_fundamental_div_mod(k, w);
            lemma_fundamental_div_mod(n, w);
        }
    }
}

/// The encoding of each line.
pub open spec fn encoded(lines: Seq<Seq<char>>) -> Seq<Seq<u8>> {
    Seq::new(lines.len(), |i: int| encode_utf8(lines[i]))
}

/// Rows do not depend on the lines that follow.
proof fn lemma_rows_of_front(lines: Seq<Seq<char>>, width: int, n: int)
    requires
        0 <= n < lines.len(),
    ensures
        rows_of(lines.drop_last(), width, n) == rows_of(lines, width, n),
    decreases n,
{
    if n > 0 {
        lemma_rows_of_front(lines, width, n - 1);
    }
}

/// Later lines begin on later rows.
proof fn lemma_rows_of_order(lines: Seq<Seq<char>>, width: int, a: int, b: int)
    requires
        0 <= a <= b,
        width > 0,
    ensures
        0 <= rows_of(lines, width, a),
        a <= rows_of(lines, width, a),
        rows_of(lines, width, a) + (b - a) <= rows_of(lines, width, b),
    decreases b,
{
    if b > a {
        lemma_rows_of_order(lines, width, a, b - 1);
        lemma_div_pos_is_pos(lines[b - 1].len() as int, width);
    } else if a > 0 {
        lemma_rows_of_order(lines, width, a - 1, a - 1);
        lemma_div_pos_is_pos(lines[a - 1].len() as int, width);
    }
}

/// Whether every line is shown from its row on, the first one from row `row` on.
pub open spec fn shows_lines(t: Terminal, row: int, lines: Seq<Seq<char>>) -> bool {
    forall|l: int|
        0 <= l < lines.len() ==> shows_line(
            t,
            row + rows_of(lines, t.width, l),
            #[trigger] lines[l],
            lines[l].len() as int,
        )
}

/// Whether every line is [`plain_line`].
pub open spec fn plain_lines(lines: Seq<Seq<char>>, width: int) -> bool {
    forall|l: int| 0 <= l < lines.len() ==> plain_line(#[trigger] lines[l], width)
}

/// The lines, one after another.
proof fn lemma_lines_are_shown(t: Terminal, lines: Seq<Seq<char>>)
    requires
        t.steady(),
        !t.wrap,
        t.x == 0,
        plain_lines(lines, t.width),
        t.y + rows_of(lines, t.width, lines.len() as int) < t.top + t.height,
    ensures
        ({
            let u = t.fed(line_bytes(encoded(lines)));
            &&& u.steady()
            &&& !u.wrap
            &&& u.x == 0
            &&& u.y == t.y + rows_of(lines, t.width, lines.len() as int)
            &&& same_outside(t, u, t.y, u.y)
            &&& shows_lines(u, t.y, lines)
        }),
    decreases lines.len(),
{
    let w = t.width;
    let all = encoded(lines);
    if lines.len() > 0 {
        let front = lines.drop_last();
        let line = lines.last();
        let k = lines.len() - 1;
        lemma_rows_of_front(lines, w, k);
        lemma_rows_of_order(lines, w, k, k + 1);
        assert forall|l: int| 0 <= l < front.len() implies plain_line(#[trigger] front[l], w) by {
            assert(front[l] == lines[l]);
        }
        lemma_div_pos_is_pos(line.len() as int, w);
        lemma_lines_are_shown(t, front);
        assert(all.drop_last() =~= encoded(front));
        assert(all.last() == encode_utf8(line));
        let tail = encode_utf8(line) + ERASE_LINE_RIGHT.spec_bytes() + "\r\n".spec_bytes();
        assert(line_bytes(all) =~= line_bytes(encoded(front)) + tail);
        lemma_fed_append(t, line_bytes(encoded(front)), tail);
        let v = t.fed(line_bytes(encoded(front)));
        assert(plain_line(lines[k], w));
        lemma_line_is_shown(v, line);
        let u = v.fed(tail);
        assert forall|l: int| 0 <= l < lines.len() implies shows_line(
            u,
            t.y + rows_of(lines, u.width, l),
            #[trigger] lines[l],
            lines[l].len() as int,
        ) by {
            if l < k {
                lemma_rows_of_front(lines, w, l);
                assert(front[l] == lines[l]);
                let row = t.y + rows_of(lines, w, l);
                assert(shows_line(v, row, lines[l], lines[l].len() as int));
                lemma_rows_of_order(lines, w, l + 1, k);
                assert forall|c: int| 0 <= c < lines[l].len() implies (u.cells)(
                    place(c, u.width).0,
                    row + place(c, u.width).1,
                ) == #[trigger] lines[l][c] by {
                    lemma_rows_grow(c, lines[l].len() as int, w);
                    assert((v.cells)(place(c, v.width).0, row + place(c, v.width).1)
                        == lines[l][c]);
                }
            }
        }
    } else {
        assert(all =~= Seq::<Seq<u8>>::empty());
    }
}

/// Lines joined by line feeds.
pub open spec fn joined_lines(lines: Seq<Seq<char>>) -> Seq<char>
    decreases lines.len(),
{
    if lines.len() == 0 {
        Seq::empty()
    } else if lines.len() == 1 {
        lines[0]
    } else {
        joined_lines(lines.drop_last()) + seq!['\n'] + lines.last()
    }
}

/// Joined lines come apart again.
proof fn lemma_lines_split(lines: Seq<Seq<char>>, width: int)
    requires
        lines.len() > 0,
        plain_lines(lines, width),
    ensures
        split(encode_utf8(joined_lines(lines)), 0x0a) == encoded(lines),
    decreases lines.len(),
{
    let last = lines.last();
    assert(plain_line(lines[lines.len() - 1], width));
    lemma_text_bytes(last);
    if lines.len() == 1 {
        lemma_split_one(encode_utf8(last), 0x0a);
        assert(encoded(lines) =~= seq![encode_utf8(last)]);
    } else {
        let front = lines.drop_last();
        assert forall|l: int| 0 <= l < front.len() implies plain_line(
            #[trigger] front[l],
            width,
        ) by {
            assert(front[l] == lines[l]);
        }
        lemma_lines_split(front, width);
        let nl = seq!['\n'];
        lemma_encode_append(joined_lines(front) + nl, last);
        lemma_encode_append(joined_lines(front), nl);
        assert(encode_utf8(nl) =~= seq![0x0au8]) by {
            assert(nl.drop_first() =~= Seq::<char>::empty());
            assert(encode_utf8(nl.drop_first()) =~= Seq::<u8>::empty());
            assert(encode_scalar('\n' as u32) =~= seq![0x0au8]) by {
                assert((0x0au32 & 0x7fu32) as u8 == 0x0au8) by (bit_vector);
            }
        }
        lemma_split_append(encode_utf8(joined_lines(front)), encode_utf8(last), 0x0a);
        assert(encoded(lines) =~= encoded(front).push(encode_utf8(last)));
    }
}

/// The rows that are counted are the rows that the lines take up.
proof fn lemma_rows_are_counted(lines: Seq<Seq<char>>, widths: Seq<u16>, width: u16, n: int)
    requires
        width > 0,
        0 <= n <= lines.len(),
        widths.len() == lines.len(),
        forall|l: int| 0 <= l < lines.len() ==> #[trigger] widths[l] == lines[l].len(),
        rows_of(lines, width as int, lines.len() as int) <= u16::MAX,
    ensures
        inserted_rows(widths, width, lines.len() as int, n) == rows_of(lines, width as int, n)
            + lines.len() - n,
    decreases n,
{
    if n > 0 {
        lemma_rows_are_counted(lines, widths, width, n - 1);
        lemma_rows_of_order(lines, width as int, n, lines.len() as int);
        assert(widths[n - 1] == lines[n - 1].len());
    }
}

/// Room is made and the rows are inserted: the rows from `base` on have moved down by `rows`,
/// and the cursor is on the first of the rows that are new.
proof fn lemma_rows_are_inserted(t: Terminal, base: int, y: u16, height: u16, rows: int)
    requires
        t.steady(),
        t.top <= base,
        t.y == base + y,
        y < height,
        base + height <= t.top + t.height,
        rows > 0,
        rows + height <= t.height,
    ensures
        ({
            let u = t.fed(
                "\r".spec_bytes() + down_bytes(height - y - 1) + line_feeds(rows) + up_bytes(
                    rows + height - 1,
                ) + insert_lines_bytes(rows as nat),
            );
            &&& u.steady()
            &&& !u.wrap
            &&& u.x == 0
            &&& u.y == base
            &&& u.width == t.width
            &&& u.height == t.height
            &&& u.modes == t.modes
            &&& u.settings == t.settings
            &&& t.top <= u.top <= base
            &&& base + rows + height <= u.top + u.height
            &&& forall|i: int, j: int|
                j < base ==> #[trigger] (u.cells)(i, j) == (t.cells)(i, j)
            &&& forall|i: int, j: int|
                0 <= j < height ==> #[trigger] (u.cells)(i, base + rows + j) == (t.cells)(
                    i,
                    base + j,
                )
        }),
{
    let ret = "\r".spec_bytes();
    let down = down_bytes(height - y - 1);
    let feeds = line_feeds(rows);
    let up = up_bytes(rows + height - 1);
    let insert = insert_lines_bytes(rows as nat);
    lemma_fed_append(t, ret, down);
    lemma_fed_append(t, ret + down, feeds);
    lemma_fed_append(t, ret + down + feeds, up);
    lemma_fed_append(t, ret + down + feeds + up, insert);
    lemma_return(t);
    let a = t.fed(ret);
    if height - y - 1 > 0 {
        law_cursor_down_moves_down(a, (height - y - 1) as nat);
    } else {
        assert(a.fed(down) == a);
    }
    let b = a.fed(down);
    assert(b.y == base + height - 1);
    lemma_line_feeds(b, rows);
    let c = b.fed(feeds);
    law_cursor_up_moves_up(c, (rows + height - 1) as nat);
    let d = c.fed(up);
    assert(d.y == base);
    law_insert_lines_inserts_lines(d, rows as nat);
}

/// Inserted text goes above the managed area, and the area keeps its rows: its cells are those
/// that were there, each in its column and its row of the area, which begins as many rows
/// further down as the text takes up. The text is shown in those rows, nothing above them
/// changes, and the cursor is tracked at the first cell of the area. That holds whatever row
/// of the area the cursor is on.
///
/// The text is in lines that print, each as wide as it has characters. The area and the text
/// fit the window. A line that ends exactly at the edge of the terminal takes one row less
/// than is reserved for it, and is left out.
pub proof fn law_insert_above_keeps_area(
    start: Terminal,
    base: int,
    s: ScreenView,
    lines: Seq<Seq<char>>,
    widths: Seq<u16>,
)
    requires
        start.fed(s.out).steady(),
        start.fed(s.out).top <= base,
        start.fed(s.out).y == base + cursor_row(s.renderer),
        start.fed(s.out).width == s.size.width,
        start.fed(s.out).height <= u16::MAX,
        cursor_row(s.renderer) < s.size.height,
        base + s.size.height <= start.fed(s.out).top + start.fed(s.out).height,
        lines.len() > 0,
        joined_lines(lines).len() > 0,
        plain_lines(lines, s.size.width as int),
        widths.len() == lines.len(),
        forall|l: int| 0 <= l < lines.len() ==> #[trigger] widths[l] == lines[l].len(),
        rows_of(lines, s.size.width as int, lines.len() as int) + s.size.height <= start.fed(
            s.out,
        ).height,
    ensures
        ({
            let t = start.fed(s.out);
            let after = inserted_above(s, joined_lines(lines), widths);
            let u = start.fed(after.out);
            let rows = rows_of(lines, s.size.width as int, lines.len() as int);
            &&& forall|x: int, y: int|
                0 <= y < s.size.height ==> #[trigger] (u.cells)(x, base + rows + y) == (t.cells)(
                    x,
                    base + y,
                )
            &&& forall|x: int, y: int|
                y < base ==> #[trigger] (u.cells)(x, y) == (t.cells)(x, y)
            &&& shows_lines(u, base, lines)
            &&& u.x == 0 && u.y == base + rows
            &&& after.renderer.cursor == Some(Position { x: 0, y: 0 })
            &&& u.modes == t.modes
            &&& u.settings == t.settings
            &&& u.steady() && !u.wrap && u.top <= base + rows
        }),
{
    let t = start.fed(s.out);
    let w = s.size.width;
    let h = s.size.height;
    let content = joined_lines(lines);
    let rows = rows_of(lines, w as int, lines.len() as int);
    let y = cursor_row(s.renderer);
    lemma_lines_split(lines, w as int);
    lemma_rows_of_order(lines, w as int, lines.len() as int, lines.len() as int);
    lemma_rows_are_counted(lines, widths, w, lines.len() as int);
    let bytes = insert_above_bytes(encode_utf8(content), widths, s.size, y);
    let room = "\r".spec_bytes() + down_bytes(h - y - 1) + line_feeds(rows) + up_bytes(
        rows + h - 1,
    ) + insert_lines_bytes(rows as nat);
    assert(bytes =~= room + line_bytes(encoded(lines)));
    lemma_fed_append(start, s.out, bytes);
    lemma_fed_append(t, room, line_bytes(encoded(lines)));
    lemma_rows_are_inserted(t, base, y, h, rows);
    lemma_lines_are_shown(t.fed(room), lines);
}

} // verus!
