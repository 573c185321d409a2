//! The cell grid and the renderer that brings the terminal in line with it.
//!
//! The renderer remembers what it has drawn and where it left the cursor, and
//! writes only the cells that differ.

use crate::ansi::cursor::{cuf_bytes, cup_bytes, cuu_bytes, write_cuf, write_cup, write_cuu};
use crate::bytes::append_str;
use crate::color::Profile;
use crate::event::key::char_text;
use crate::layout::{Position, Size};
use vstd::prelude::*;
use vstd::string::*;
use vstd::utf8::*;

verus! {

/// One cell of the grid.
#[derive(Debug, Clone, Copy, PartialEq, Eq, Hash, Structural)]
pub struct Cell {
    /// The character shown.
    pub glyph: char,
}

impl Cell {
    /// The empty cell.
    #[verifier::allow_in_spec]
    pub fn blank() -> Cell
        returns
            (Cell { glyph: ' ' }),
    {
        Cell { glyph: ' ' }
    }
}

/// Which optimized escape sequences the renderer may rely on.
#[derive(Debug, Clone, Copy, PartialEq, Eq, Hash, Structural)]
pub struct Optimizations {
    /// Hardware tab stops every eight columns.
    pub tabs: bool,
}

impl Optimizations {
    /// The set without any flag.
    #[verifier::allow_in_spec]
    pub fn empty() -> Optimizations
        returns
            (Optimizations { tabs: false }),
    {
        Optimizations { tabs: false }
    }

    /// The set of this flag alone. Hardware tab stops every eight columns.
    #[verifier::allow_in_spec]
    pub fn tabs() -> Optimizations
        returns
            (Optimizations { tabs: true }),
    {
        Optimizations { tabs: true }
    }

    /// Whether every flag of `other` is in `self`.
    #[verifier::allow_in_spec]
    pub fn contains(self, other: Optimizations) -> bool
        returns
            ((!other.tabs || self.tabs)),
    {
        (!other.tabs || self.tabs)
    }

    /// Whether no flag is in the set.
    #[verifier::allow_in_spec]
    pub fn is_empty(self) -> bool
        returns
            (!self.tabs),
    {
        !self.tabs
    }

    /// The flags of either set.
    #[verifier::allow_in_spec]
    pub fn union(self, other: Optimizations) -> Optimizations
        returns
            (Optimizations { tabs: self.tabs || other.tabs }),
    {
        Optimizations { tabs: self.tabs || other.tabs }
    }
}

impl std::ops::BitOr for Optimizations {
    type Output = Optimizations;

    fn bitor(self, rhs: Optimizations) -> (r: Optimizations) {
        self.union(rhs)
    }
}

impl vstd::std_specs::ops::BitOrSpecImpl for Optimizations {
    open spec fn obeys_bitor_spec() -> bool {
        true
    }

    open spec fn bitor_req(self, rhs: Optimizations) -> bool {
        true
    }

    open spec fn bitor_spec(self, rhs: Optimizations) -> Optimizations {
        self.union(rhs)
    }
}

/// A grid of cells.
pub struct Grid {
    rows: Vec<Vec<Cell>>,
    width: u16,
}

/// The rows of a grid.
pub open spec fn rows_view(rows: Seq<Vec<Cell>>) -> Seq<Seq<Cell>> {
    Seq::new(rows.len(), |y: int| rows[y]@)
}

/// Every row of `rows` is `width` cells long, and rows and columns fit the
/// coordinates.
pub open spec fn rectangular(rows: Seq<Seq<Cell>>, width: u16) -> bool {
    rows.len() <= u16::MAX && forall|y: int| 0 <= y < rows.len() ==> (#[trigger] rows[y]).len()
        == width
}

/// The cell at `(x, y)` of `rows`, or a blank outside them.
pub open spec fn cell_at(rows: Seq<Seq<Cell>>, x: int, y: int) -> Cell {
    if 0 <= y < rows.len() && 0 <= x < rows[y].len() {
        rows[y][x]
    } else {
        Cell::blank()
    }
}

/// `rows` cut or extended with blanks to `width` by `height`.
pub open spec fn resized(rows: Seq<Seq<Cell>>, width: u16, height: u16) -> Seq<Seq<Cell>> {
    Seq::new(height as nat, |y: int| Seq::new(width as nat, |x: int| cell_at(rows, x, y)))
}

impl View for Grid {
    type V = Seq<Seq<Cell>>;

    closed spec fn view(&self) -> Seq<Seq<Cell>> {
        rows_view(self.rows@)
    }
}

impl Grid {
    /// Every row has the grid's width.
    pub closed spec fn well_formed(&self) -> bool {
        rectangular(self@, self.width)
    }

    /// The width of the grid.
    pub closed spec fn spec_width(&self) -> u16 {
        self.width
    }

    /// A well-formed grid is rectangular.
    pub proof fn lemma_rectangular(&self)
        requires
            self.well_formed(),
        ensures
            rectangular(self@, self.spec_width()),
    {
    }

    /// A grid without cells.
    pub fn empty() -> (r: Grid)
        ensures
            r.well_formed(),
            r@ == Seq::<Seq<Cell>>::empty(),
            r.spec_width() == 0,
    {
        let r = Grid { rows: Vec::new(), width: 0 };
        assert(r@ =~= Seq::<Seq<Cell>>::empty());
        r
    }

    /// The cell at `pos`, or a blank outside the grid.
    fn cell_or_blank(&self, x: usize, y: usize) -> (r: Cell)
        ensures
            r == cell_at(self@, x as int, y as int),
    {
        if y < self.rows.len() && x < self.rows[y].len() {
            self.rows[y][x]
        } else {
            Cell::blank()
        }
    }

    /// The cell at `pos`, if it is in the grid.
    pub fn cell(&self, pos: Position) -> (r: Option<Cell>)
        ensures
            r == (if pos.y < self@.len() && pos.x < self@[pos.y as int].len() {
                Some(self@[pos.y as int][pos.x as int])
            } else {
                None
            }),
    {
        let (x, y) = (pos.x as usize, pos.y as usize);
        if y < self.rows.len() && x < self.rows[y].len() {
            Some(self.rows[y][x])
        } else {
            None
        }
    }

    /// Write `cell` at `pos`; nothing outside the grid.
    pub fn set_cell(&mut self, pos: Position, cell: Cell)
        requires
            old(self).well_formed(),
        ensures
            final(self).well_formed(),
            final(self).spec_width() == old(self).spec_width(),
            final(self)@ == with_cell(old(self)@, pos, cell),
    {
        let (x, y) = (pos.x as usize, pos.y as usize);
        let ghost before = self@;
        if y < self.rows.len() && x < self.rows[y].len() {
            self.rows[y][x] = cell;
            assert(self@ =~= with_cell(before, pos, cell));
        }
    }

    /// Borrow the cell at `pos` mutably, if it is in the grid.
    pub fn cell_mut(&mut self, pos: Position) -> (r: Option<&mut Cell>)
        requires
            old(self).well_formed(),
        ensures
            match r {
                Some(cell) => {
                    &&& pos.y < old(self)@.len() && pos.x < old(self)@[pos.y as int].len()
                    &&& *cell == old(self)@[pos.y as int][pos.x as int]
                    &&& final(self)@ == with_cell(old(self)@, pos, *final(cell))
                },
                None => {
                    &&& !(pos.y < old(self)@.len() && pos.x < old(self)@[pos.y as int].len())
                    &&& final(self)@ == old(self)@
                },
            },
            final(self).well_formed(),
            final(self).spec_width() == old(self).spec_width(),
    {
        let (x, y) = (pos.x as usize, pos.y as usize);
        if y < self.rows.len() && x < self.rows[y].len() {
            let row = &mut self.rows[y];
            Some(&mut row[x])
        } else {
            None
        }
    }

    /// Cut or extend the grid with blanks.
    pub fn resize(&mut self, width: u16, height: u16)
        ensures
            final(self).well_formed(),
            final(self).spec_width() == width,
            final(self)@ == resized(old(self)@, width, height),
    {
        let ghost before = self@;
        let mut rows: Vec<Vec<Cell>> = Vec::new();
        let mut y: usize = 0;
        while y < height as usize
            invariant
                0 <= y <= height,
                self@ == before,
                rows@.len() == y,
                forall|k: int| 0 <= k < y ==> (#[trigger] rows@[k])@ == resized(
                    before,
                    width,
                    height,
                )[k],
            decreases height - y,
        {
            let mut row: Vec<Cell> = Vec::new();
            let mut x: usize = 0;
            while x < width as usize
                invariant
                    0 <= x <= width,
                    self@ == before,
                    row@.len() == x,
                    forall|k: int| 0 <= k < x ==> #[trigger] row@[k] == cell_at(before, k, y as int),
                decreases width - x,
            {
                row.push(self.cell_or_blank(x, y));
                x += 1;
            }
            assert(row@ =~= resized(before, width, height)[y as int]);
            rows.push(row);
            y += 1;
        }
        self.rows = rows;
        self.width = width;
        assert(self@ =~= resized(before, width, height));
    }

    /// Whether two grids show the same cells.
    fn same(&self, other: &Grid) -> (r: bool)
        requires
            self.well_formed(),
        ensures
            r == (self@ == other@),
    {
        if self.rows.len() != other.rows.len() {
            return false;
        }
        let mut y: usize = 0;
        while y < self.rows.len()
            invariant
                0 <= y <= self.rows@.len(),
                self.rows@.len() == other.rows@.len(),
                forall|k: int| 0 <= k < y ==> (#[trigger] self@[k]) == other@[k],
            decreases self.rows@.len() - y,
        {
            if !same_row(&self.rows[y], &other.rows[y]) {
                assert(self@[y as int] != other@[y as int]);
                return false;
            }
            y += 1;
        }
        assert(self@ =~= other@);
        true
    }

    /// A copy of the grid.
    fn copy(&self) -> (r: Grid)
        requires
            self.well_formed(),
        ensures
            r@ == self@,
            r.well_formed(),
            r.spec_width() == self.spec_width(),
    {
        let mut rows: Vec<Vec<Cell>> = Vec::new();
        let mut y: usize = 0;
        while y < self.rows.len()
            invariant
                0 <= y <= self.rows@.len(),
                rows@.len() == y,
                forall|k: int| 0 <= k < y ==> (#[trigger] rows@[k])@ == self@[k],
            decreases self.rows@.len() - y,
        {
            rows.push(vstd::slice::slice_to_vec(self.rows[y].as_slice()));
            y += 1;
        }
        let r = Grid { rows, width: self.width };
        assert(r@ =~= self@);
        r
    }
}

/// `rows` with one cell replaced; unchanged outside them.
pub open spec fn with_cell(rows: Seq<Seq<Cell>>, pos: Position, cell: Cell) -> Seq<Seq<Cell>> {
    if pos.y < rows.len() && pos.x < rows[pos.y as int].len() {
        rows.update(pos.y as int, rows[pos.y as int].update(pos.x as int, cell))
    } else {
        rows
    }
}

fn same_row(a: &Vec<Cell>, b: &Vec<Cell>) -> (r: bool)
    ensures
        r == (a@ == b@),
{
    if a.len() != b.len() {
        return false;
    }
    let mut x: usize = 0;
    while x < a.len()
        invariant
            0 <= x <= a@.len(),
            a@.len() == b@.len(),
            forall|k: int| 0 <= k < x ==> #[trigger] a@[k] == b@[k],
        decreases a@.len() - x,
    {
        if a[x] != b[x] {
            assert(a@[x as int] != b@[x as int]);
            return false;
        }
        x += 1;
    }
    assert(a@ =~= b@);
    true
}

/// Output under way: the bytes so far, and where they leave the cursor, if known.
#[verifier::ext_equal]
pub struct Pen {
    pub bytes: Seq<u8>,
    pub at: Option<Position>,
}

/// `n` line feeds.
pub open spec fn line_feeds(n: int) -> Seq<u8> {
    Seq::new(n as nat, |i: int| 0x0au8)
}

/// The bytes of a move between rows, relative to the cursor. Line feeds move down,
/// so that a surface at the bottom of the terminal makes room for itself.
pub open spec fn vertical_bytes(from: u16, to: u16) -> Seq<u8> {
    if to > from {
        line_feeds(to - from)
    } else if to < from {
        cuu_bytes((from - to) as nat)
    } else {
        Seq::empty()
    }
}

/// The bytes of a move between columns, by way of the first column.
pub open spec fn horizontal_bytes(from: u16, to: u16) -> Seq<u8> {
    if to == from {
        Seq::empty()
    } else if to == 0 {
        "\r".spec_bytes()
    } else {
        "\r".spec_bytes() + cuf_bytes(to as nat)
    }
}

/// The pen moved to `to`: absolutely, or relative to where it is. Where that is not
/// known, the first column of the current row counts as the origin.
pub open spec fn moved(pen: Pen, to: Position, relative: bool) -> Pen {
    let bytes = if pen.at == Some(to) {
        pen.bytes
    } else if !relative {
        pen.bytes + cup_bytes(to.x, to.y)
    } else {
        match pen.at {
            Some(from) => pen.bytes + vertical_bytes(from.y, to.y) + horizontal_bytes(from.x, to.x),
            None => pen.bytes + "\r".spec_bytes() + vertical_bytes(0, to.y) + horizontal_bytes(
                0,
                to.x,
            ),
        }
    };
    Pen { bytes, at: Some(to) }
}

/// The pen after drawing `cell` at `pos`. At the right edge the pen returns to the
/// first column.
pub open spec fn drawn(pen: Pen, pos: Position, cell: Cell, width: u16, relative: bool) -> Pen {
    let there = moved(pen, pos, relative);
    let bytes = there.bytes + encode_utf8(seq![cell.glyph]);
    if pos.x + 1 < width {
        Pen { bytes, at: Some(Position { x: (pos.x + 1) as u16, y: pos.y }) }
    } else {
        Pen { bytes: bytes + "\r".spec_bytes(), at: Some(Position { x: 0, y: pos.y }) }
    }
}

/// The pen after bringing row `y` in line, from column `x` on: every cell that
/// differs from what is shown is drawn.
pub open spec fn row_drawn(
    pen: Pen,
    front: Seq<Seq<Cell>>,
    back: Seq<Seq<Cell>>,
    x: int,
    y: int,
    relative: bool,
) -> Pen
    decreases front[y].len() - x,
{
    let row = front[y];
    if x >= row.len() {
        pen
    } else if row[x] == cell_at(back, x, y) {
        row_drawn(pen, front, back, x + 1, y, relative)
    } else {
        row_drawn(
            drawn(
                pen,
                Position { x: x as u16, y: y as u16 },
                row[x],
                row.len() as u16,
                relative,
            ),
            front,
            back,
            x + 1,
            y,
            relative,
        )
    }
}

/// The pen after bringing every row from `y` on in line.
pub open spec fn rows_drawn(
    pen: Pen,
    front: Seq<Seq<Cell>>,
    back: Seq<Seq<Cell>>,
    y: int,
    relative: bool,
) -> Pen
    decreases front.len() - y,
{
    if y >= front.len() {
        pen
    } else {
        rows_drawn(row_drawn(pen, front, back, 0, y, relative), front, back, y + 1, relative)
    }
}

/// The renderer: what it has drawn, where it believes the cursor to be, and how it
/// draws.
pub struct Renderer {
    cursor: Option<Position>,
    saved: Option<Position>,
    fullscreen: bool,
    relative_cursor: bool,
    clear: bool,
    last_size: Size,
    color_profile: Profile,
    optimizations: Optimizations,
    back: Grid,
}

/// A [`Renderer`] with the cells it has drawn as sequences.
pub struct RendererView {
    /// Where the terminal cursor is, if known.
    pub cursor: Option<Position>,
    /// The cursor saved for the other screen buffer.
    pub saved: Option<Position>,
    /// Whether the surface is the whole viewport.
    pub fullscreen: bool,
    /// Whether moves are relative to the cursor.
    pub relative_cursor: bool,
    /// Whether the next frame redraws everything.
    pub clear: bool,
    /// The size of the last frame.
    pub last_size: Size,
    /// The color profile.
    pub color_profile: Profile,
    /// The optimizations in effect.
    pub optimizations: Optimizations,
    /// The cells that the terminal shows.
    pub back: Seq<Seq<Cell>>,
}

impl View for Renderer {
    type V = RendererView;

    closed spec fn view(&self) -> RendererView {
        RendererView {
            cursor: self.cursor,
            saved: self.saved,
            fullscreen: self.fullscreen,
            relative_cursor: self.relative_cursor,
            clear: self.clear,
            last_size: self.last_size,
            color_profile: self.color_profile,
            optimizations: self.optimizations,
            back: self.back@,
        }
    }
}

/// The cells that count as shown when the next frame is drawn.
pub open spec fn shown(r: RendererView) -> Seq<Seq<Cell>> {
    if r.clear {
        Seq::empty()
    } else {
        r.back
    }
}

/// Whether the next frame of `front` draws anything.
pub open spec fn frame_changes(r: RendererView, front: Seq<Seq<Cell>>) -> bool {
    r.clear || r.back != front
}

/// The pen after the cells of a frame.
pub open spec fn frame_drawn(r: RendererView, front: Seq<Seq<Cell>>, out: Seq<u8>) -> Pen {
    let start = Pen { bytes: out, at: r.cursor };
    let ready = if r.clear {
        let home = moved(start, Position::origin(), r.relative_cursor);
        Pen { bytes: home.bytes + "\x1b[J".spec_bytes(), ..home }
    } else {
        start
    };
    rows_drawn(ready, front, shown(r), 0, r.relative_cursor)
}

/// The renderer after a frame of `front`.
pub open spec fn after_frame(
    r: RendererView,
    front: Seq<Seq<Cell>>,
    size: Size,
    out: Seq<u8>,
) -> RendererView {
    RendererView {
        cursor: frame_drawn(r, front, out).at,
        clear: false,
        last_size: size,
        back: front,
        ..r
    }
}

/// A new renderer, inline and with nothing drawn.
pub open spec fn new_renderer(profile: Profile, optimizations: Optimizations) -> RendererView {
    RendererView {
        cursor: None,
        saved: None,
        fullscreen: false,
        relative_cursor: true,
        clear: false,
        last_size: Size { width: 0, height: 0 },
        color_profile: profile,
        optimizations,
        back: Seq::empty(),
    }
}

/// The renderer on the other screen buffer. Entering the alternate buffer keeps the
/// cursor for the way back and redraws everything.
pub open spec fn renderer_switched(r: RendererView, alt_screen: bool) -> RendererView {
    RendererView {
        cursor: if alt_screen {
            r.cursor
        } else {
            r.saved
        },
        saved: if alt_screen {
            r.cursor
        } else {
            r.saved
        },
        fullscreen: alt_screen,
        relative_cursor: !alt_screen,
        clear: r.clear || alt_screen,
        ..r
    }
}

impl Renderer {
    /// A new renderer, inline and with nothing drawn.
    pub fn new(profile: Profile, optimizations: Optimizations) -> (r: Renderer)
        ensures
            r@ == new_renderer(profile, optimizations),
            r.well_formed(),
    {
        Renderer {
            cursor: None,
            saved: None,
            fullscreen: false,
            relative_cursor: true,
            clear: false,
            last_size: Size { width: 0, height: 0 },
            color_profile: profile,
            optimizations,
            back: Grid::empty(),
        }
    }

    /// What has been drawn is a grid.
    pub closed spec fn well_formed(&self) -> bool {
        self.back.well_formed()
    }

    /// Where the terminal cursor is believed to be, if anywhere.
    pub fn cursor(&self) -> (r: Option<Position>)
        ensures
            r == self@.cursor,
    {
        self.cursor
    }

    /// Set or forget where the terminal cursor is believed to be.
    pub fn set_cursor(&mut self, cursor: Option<Position>)
        requires
            old(self).well_formed(),
        ensures
            final(self).well_formed(),
            final(self)@ == (RendererView { cursor, ..old(self)@ }),
    {
        self.cursor = cursor;
    }

    /// Keep the cursor for the screen buffer that is left.
    pub fn save_cursor(&mut self)
        requires
            old(self).well_formed(),
        ensures
            final(self).well_formed(),
            final(self)@ == (RendererView { saved: old(self)@.cursor, ..old(self)@ }),
    {
        self.saved = self.cursor;
    }

    /// Go over to the alternate screen buffer, which is fullscreen and redrawn, or
    /// back to the normal one, which is inline.
    pub fn switch_buffer(&mut self, alt_screen: bool)
        requires
            old(self).well_formed(),
        ensures
            final(self).well_formed(),
            final(self)@ == renderer_switched(old(self)@, alt_screen),
    {
        if alt_screen {
            self.saved = self.cursor;
            self.clear = true;
        } else {
            self.cursor = self.saved;
        }
        self.fullscreen = alt_screen;
        self.relative_cursor = !alt_screen;
    }

    /// Redraw everything with the next frame.
    pub fn request_clear(&mut self)
        requires
            old(self).well_formed(),
        ensures
            final(self).well_formed(),
            final(self)@ == (RendererView { clear: true, ..old(self)@ }),
    {
        self.clear = true;
    }

    /// The color profile.
    pub fn color_profile(&self) -> (r: Profile)
        ensures
            r == self@.color_profile,
    {
        self.color_profile
    }

    /// Set the color profile.
    pub fn set_color_profile(&mut self, profile: Profile)
        requires
            old(self).well_formed(),
        ensures
            final(self).well_formed(),
            final(self)@ == (RendererView { color_profile: profile, ..old(self)@ }),
    {
        self.color_profile = profile;
    }

    /// The optimizations in effect.
    pub fn optimizations(&self) -> (r: Optimizations)
        ensures
            r == self@.optimizations,
    {
        self.optimizations
    }

    /// Set the optimizations.
    pub fn set_optimizations(&mut self, optimizations: Optimizations)
        requires
            old(self).well_formed(),
        ensures
            final(self).well_formed(),
            final(self)@ == (RendererView { optimizations, ..old(self)@ }),
    {
        self.optimizations = optimizations;
    }

    /// The size of the last frame.
    pub fn last_size(&self) -> (r: Size)
        ensures
            r == self@.last_size,
    {
        self.last_size
    }

    /// Whether the next frame of `front` draws anything.
    pub fn frame_pending(&self, front: &Grid) -> (r: bool)
        requires
            self.well_formed(),
        ensures
            r == frame_changes(self@, front@),
    {
        self.clear || !self.back.same(front)
    }

    /// Move the terminal cursor to `to`; nothing where it is there already.
    pub fn move_to(&mut self, out: &mut Vec<u8>, to: Position)
        requires
            old(self).well_formed(),
        ensures
            final(self).well_formed(),
            ({
                let pen = moved(
                    Pen { bytes: old(out)@, at: old(self)@.cursor },
                    to,
                    old(self)@.relative_cursor,
                );
                final(out)@ == pen.bytes && final(self)@ == (RendererView {
                    cursor: pen.at,
                    ..old(self)@
                })
            }),
    {
        match self.cursor {
            Some(from) => {
                if from.x == to.x && from.y == to.y {
                    return;
                }
                if !self.relative_cursor {
                    write_cup(out, to.x, to.y);
                } else {
                    write_vertical(out, from.y, to.y);
                    write_horizontal(out, from.x, to.x);
                }
            },
            None => {
                if !self.relative_cursor {
                    write_cup(out, to.x, to.y);
                } else {
                    append_str(out, "\r");
                    write_vertical(out, 0, to.y);
                    write_horizontal(out, 0, to.x);
                }
            },
        }
        self.cursor = Some(to);
    }

    /// Draw one cell.
    fn draw(&mut self, out: &mut Vec<u8>, pos: Position, cell: Cell, width: u16)
        requires
            old(self).well_formed(),
            pos.x < width,
        ensures
            final(self).well_formed(),
            ({
                let pen = drawn(
                    Pen { bytes: old(out)@, at: old(self)@.cursor },
                    pos,
                    cell,
                    width,
                    old(self)@.relative_cursor,
                );
                final(out)@ == pen.bytes && final(self)@ == (RendererView {
                    cursor: pen.at,
                    ..old(self)@
                })
            }),
    {
        self.move_to(out, pos);
        let text = char_text(cell.glyph);
        append_str(out, text.as_str());
        if pos.x < width - 1 {
            self.cursor = Some(Position { x: pos.x + 1, y: pos.y });
        } else {
            append_str(out, "\r");
            self.cursor = Some(Position { x: 0, y: pos.y });
        }
    }

    /// Draw the cells of a frame and remember them.
    pub fn render_back(&mut self, out: &mut Vec<u8>, front: &Grid, size: Size)
        requires
            old(self).well_formed(),
            front.well_formed(),
        ensures
            final(self).well_formed(),
            final(out)@ == frame_drawn(old(self)@, front@, old(out)@).bytes,
            final(self)@ == after_frame(old(self)@, front@, size, old(out)@),
    {
        let ghost r = self@;
        let relative = self.relative_cursor;
        let ghost back = shown(r);
        if self.clear {
            self.move_to(out, Position::origin());
            append_str(out, "\x1b[J");
            self.back = Grid::empty();
        }
        self.clear = false;
        let ghost start = Pen { bytes: out@, at: self@.cursor };
        let ghost done = rows_drawn(start, front@, back, 0, relative);
        let mut y: usize = 0;
        while y < front.rows.len()
            invariant
                0 <= y <= front.rows@.len(),
                front.well_formed(),
                front@.len() == front.rows@.len(),
                self.well_formed(),
                relative == r.relative_cursor,
                self@ == (RendererView { cursor: self@.cursor, clear: false, back, ..r }),
                rows_drawn(
                    Pen { bytes: out@, at: self@.cursor },
                    front@,
                    back,
                    y as int,
                    relative,
                ) == done,
            decreases front.rows@.len() - y,
        {
            let ghost row_start = Pen { bytes: out@, at: self@.cursor };
            let ghost row_done = row_drawn(row_start, front@, back, 0, y as int, relative);
            let mut x: usize = 0;
            while x < front.rows[y].len()
                invariant
                    0 <= y < front.rows@.len(),
                    0 <= x <= front.rows@[y as int]@.len(),
                    front.well_formed(),
                    front@.len() == front.rows@.len(),
                    front@[y as int] == front.rows@[y as int]@,
                    self.well_formed(),
                    relative == r.relative_cursor,
                    self@ == (RendererView { cursor: self@.cursor, clear: false, back, ..r }),
                    row_drawn(
                        Pen { bytes: out@, at: self@.cursor },
                        front@,
                        back,
                        x as int,
                        y as int,
                        relative,
                    ) == row_done,
                decreases front.rows@[y as int]@.len() - x,
            {
                assert(front@[y as int].len() == front.width);
                let cell = front.rows[y][x];
                if cell != self.back.cell_or_blank(x, y) {
                    self.draw(out, Position { x: x as u16, y: y as u16 }, cell, front.width);
                }
                x += 1;
            }
            y += 1;
        }
        self.back = front.copy();
        self.last_size = size;
    }
}

/// Write the bytes of a move between rows.
fn write_vertical(out: &mut Vec<u8>, from: u16, to: u16)
    ensures
        final(out)@ == old(out)@ + vertical_bytes(from, to),
{
    if to > from {
        write_line_feeds(out, to - from);
    } else if to < from {
        write_cuu(out, (from - to) as u32);
    } else {
        assert(out@ =~= old(out)@ + vertical_bytes(from, to));
    }
}

/// Write `n` line feeds.
pub fn write_line_feeds(out: &mut Vec<u8>, n: u16)
    ensures
        final(out)@ == old(out)@ + line_feeds(n as int),
{
    let mut i: u16 = 0;
    assert(out@ =~= old(out)@ + line_feeds(0));
    while i < n
        invariant
            i <= n,
            out@ =~= old(out)@ + line_feeds(i as int),
        decreases n - i,
    {
        out.push(0x0a);
        i += 1;
    }
}

/// Write the bytes of a move between columns.
fn write_horizontal(out: &mut Vec<u8>, from: u16, to: u16)
    ensures
        final(out)@ == old(out)@ + horizontal_bytes(from, to),
{
    if to != from {
        append_str(out, "\r");
        if to != 0 {
            write_cuf(out, to as u32);
        }
    }
    assert(out@ =~= old(out)@ + horizontal_bytes(from, to));
}

} // verus!
