//! [`Screen`]: the state of a terminal application's screen.
//!
//! A screen bundles the cell grid that the application draws on, the renderer that
//! brings the terminal in line with it, the terminal and input modes that are in
//! effect, and what has been learned of the terminal. Every method stages the bytes
//! for the terminal in an output buffer; [`Screen::take_output`] hands them over.
//!
//! # Inline and fullscreen
//!
//! With the alternate screen on the managed area is the whole viewport, addressed
//! with absolute moves. Without it the screen is *inline*: it occupies the full
//! width but only as many rows as are drawn, anchored in the normal buffer.
//!
//! ```text
//!  Inline (default):                    Fullscreen (alternate screen):
//!
//!    $ earlier shell output               ┌─────────────────────────────┐
//!    ┌─────────────────────────┐          │  the whole terminal         │
//!    │ managed surface         │          │  viewport is the surface    │
//!    └─────────────────────────┘          └─────────────────────────────┘
//!    $ shell prompt resumes
//! ```
//!
//! # Session
//!
//! [`Screen::init_with`] begins a session and stages the capability queries;
//! [`Screen::observe_event`] takes in their replies. [`Screen::pause`] and
//! [`Screen::finish`] stage the teardown of every mode held, and
//! [`Screen::resume`] applies them again.

pub mod display;
pub mod handover;
pub mod host;
pub mod laws;
pub mod learning;
pub mod modes;
pub mod observe;
pub mod renderer;
pub mod session;
pub mod settings;
pub mod state;
pub mod surface;
pub mod terminal;

pub use renderer::{Cell, Optimizations};
pub use state::{Capabilities, MouseTracking};

use crate::ansi::cursor::{
    cud_bytes, cuu_bytes, insert_lines_bytes, write_cud, write_cuu, write_insert_lines,
    CursorStyle, ERASE_LINE_RIGHT,
};
use crate::ansi::kitty::{set_keyboard_bytes, write_set_kitty_keyboard, KittyKeyboardFlags};
use crate::ansi::mode::{reset_bytes, set_bytes, Mode};
use crate::bytes::{append, append_str, fields_view, split, split_fields};
use crate::color::Profile;
use crate::event::key::text_view;
use crate::event::mouse::{mouse_pixel_to_cell, pixel_to_cell, Mouse};
use crate::event::{events_view, Event, EventView};
use crate::layout::{Position, Size};
use crate::screen::renderer::{
    after_frame, frame_changes, frame_drawn, line_feeds, moved, rectangular, renderer_switched,
    resized, with_cell, write_line_feeds, Grid, Pen, Renderer, RendererView,
};
use crate::screen::state::{State, StateView};
use std::collections::VecDeque;
use vstd::prelude::*;
use vstd::string::*;

verus! {

/// The shape of the text cursor.
#[derive(Debug, Clone, Copy, PartialEq, Eq, Hash, Structural)]
pub enum CursorShape {
    /// A block.
    Block,
    /// An underline.
    Underline,
    /// A vertical bar.
    Bar,
}

impl CursorShape {
    /// The cursor style of the shape.
    #[verifier::allow_in_spec]
    pub fn style(self, blinking: bool) -> CursorStyle
        returns
            (match self {
                CursorShape::Block => if blinking {
                    CursorStyle::BlinkingBlock
                } else {
                    CursorStyle::SteadyBlock
                },
                CursorShape::Underline => if blinking {
                    CursorStyle::BlinkingUnderline
                } else {
                    CursorStyle::SteadyUnderline
                },
                CursorShape::Bar => if blinking {
                    CursorStyle::BlinkingBar
                } else {
                    CursorStyle::SteadyBar
                },
            }),
    {
        match self {
            CursorShape::Block => if blinking {
                CursorStyle::BlinkingBlock
            } else {
                CursorStyle::SteadyBlock
            },
            CursorShape::Underline => if blinking {
                CursorStyle::BlinkingUnderline
            } else {
                CursorStyle::SteadyUnderline
            },
            CursorShape::Bar => if blinking {
                CursorStyle::BlinkingBar
            } else {
                CursorStyle::SteadyBar
            },
        }
    }
}

/// Desired default behaviors of a session.
///
/// Always-on defaults take effect when the session begins. Discovery-driven
/// defaults are applied once the Primary DA reply has confirmed the capabilities.
#[derive(Debug, Clone, Copy, PartialEq, Eq, Structural)]
pub struct ScreenOptions {
    /// Enable bracketed paste at the start. Defaults to `true`.
    pub bracketed_paste: bool,
    /// Desired Kitty keyboard enhancements; modifyOtherKeys is the fallback.
    pub keyboard_enhancements: KittyKeyboardFlags,
    /// Prefer in-band resize reports when the terminal supports them. Defaults to
    /// `true`.
    pub prefer_in_band_resize: bool,
    /// Request the window pixel size whenever a resize carries none. Defaults to
    /// `false`; consoles that report cells only want `true`.
    pub request_pixel_size_on_resize: bool,
    /// Enable mouse tracking with these extras. Defaults to `None`.
    pub mouse: Option<MouseTracking>,
    /// Send the capability queries. Defaults to `true`.
    pub query_capabilities: bool,
    /// How long teardown waits for outstanding replies, in milliseconds. Defaults
    /// to 300.
    pub query_drain_timeout: u64,
    /// Track the physical position of the inline surface. Defaults to `true`.
    pub track_origin: bool,
}

impl ScreenOptions {
    /// The default options.
    pub open spec fn spec_default() -> ScreenOptions {
        ScreenOptions {
            bracketed_paste: true,
            keyboard_enhancements: KittyKeyboardFlags::disambiguate_escape_codes(),
            prefer_in_band_resize: true,
            request_pixel_size_on_resize: false,
            mouse: None,
            query_capabilities: true,
            query_drain_timeout: 300,
            track_origin: true,
        }
    }
}

impl Default for ScreenOptions {
    fn default() -> (r: Self)
        ensures
            r == ScreenOptions::spec_default(),
    {
        ScreenOptions {
            bracketed_paste: true,
            keyboard_enhancements: KittyKeyboardFlags::disambiguate_escape_codes(),
            prefer_in_band_resize: true,
            request_pixel_size_on_resize: false,
            mouse: None,
            query_capabilities: true,
            query_drain_timeout: 300,
            track_origin: true,
        }
    }
}

/// How the cells of a text are counted.
#[derive(Debug, Clone, Copy, PartialEq, Eq, Structural)]
pub enum WidthMode {
    /// By extended grapheme cluster.
    Grapheme,
    /// By code point, as `wcwidth` does.
    Wc,
}

/// What the environment says of the terminal.
#[derive(Debug)]
pub struct Host {
    /// The value of `TERM_PROGRAM`.
    pub term_program: Option<String>,
    /// The value of `TERM_PROGRAM_VERSION`.
    pub term_program_version: Option<String>,
    /// Whether the terminal has a one-step reset of its tab stops (DECST8C).
    pub supports_decst8c: bool,
}

/// A [`Host`] with its texts as sequences.
pub struct HostView {
    pub term_program: Option<Seq<char>>,
    pub term_program_version: Option<Seq<char>>,
    pub supports_decst8c: bool,
}

impl View for Host {
    type V = HostView;

    open spec fn view(&self) -> HostView {
        HostView {
            term_program: text_view(self.term_program),
            term_program_version: text_view(self.term_program_version),
            supports_decst8c: self.supports_decst8c,
        }
    }
}

/// The state of a terminal application's screen. See the [module](self)
/// documentation.
pub struct Screen {
    front: Grid,
    renderer: Renderer,
    out: Vec<u8>,
    width: u16,
    height: u16,
    state: State,
    caps: Capabilities,
    options: ScreenOptions,
    host: Host,
    defaults_applied: bool,
    window_cells: Option<Size>,
    window_pixels: Option<Size>,
    terminal_name: Option<String>,
    queries_sent: bool,
    origin: Position,
    origin_pending: bool,
    handle_resize: bool,
    queue: VecDeque<Event>,
}

/// The model of a [`Screen`].
pub struct ScreenView {
    /// The cells that the application has drawn.
    pub front: Seq<Seq<Cell>>,
    /// The renderer.
    pub renderer: RendererView,
    /// The bytes staged for the terminal.
    pub out: Seq<u8>,
    /// The size of the managed area.
    pub size: Size,
    /// The modes held.
    pub state: StateView,
    /// What the terminal is known to support.
    pub caps: Capabilities,
    /// The options of the session.
    pub options: ScreenOptions,
    /// What the environment says of the terminal.
    pub host: HostView,
    /// Whether the discovery-driven defaults have been applied.
    pub defaults_applied: bool,
    /// The last observed terminal size in cells.
    pub window_cells: Option<Size>,
    /// The last observed terminal size in pixels.
    pub window_pixels: Option<Size>,
    /// The terminal's own name.
    pub terminal_name: Option<Seq<char>>,
    /// Whether capability queries were sent and not yet drained.
    pub queries_sent: bool,
    /// Where the managed area begins on the terminal, when inline.
    pub origin: Position,
    /// Whether the reply to an origin query is outstanding.
    pub origin_pending: bool,
    /// Whether resizes have to be detected outside the input stream.
    pub handle_resize: bool,
    /// Events that wait to be read.
    pub queue: Seq<EventView>,
}

impl View for Screen {
    type V = ScreenView;

    closed spec fn view(&self) -> ScreenView {
        ScreenView {
            front: self.front@,
            renderer: self.renderer@,
            out: self.out@,
            size: Size { width: self.width, height: self.height },
            state: self.state@,
            caps: self.caps,
            options: self.options,
            host: self.host@,
            defaults_applied: self.defaults_applied,
            window_cells: self.window_cells,
            window_pixels: self.window_pixels,
            terminal_name: text_view(self.terminal_name),
            queries_sent: self.queries_sent,
            origin: self.origin,
            origin_pending: self.origin_pending,
            handle_resize: self.handle_resize,
            queue: events_view(self.queue@),
        }
    }
}

/// A screen with more bytes staged.
pub open spec fn staged(s: ScreenView, bytes: Seq<u8>) -> ScreenView {
    ScreenView { out: s.out + bytes, ..s }
}

/// A screen with other modes.
pub open spec fn with_state(s: ScreenView, state: StateView) -> ScreenView {
    ScreenView { state, ..s }
}

/// A screen with another renderer.
pub open spec fn with_renderer(s: ScreenView, renderer: RendererView) -> ScreenView {
    ScreenView { renderer, ..s }
}

/// A screen of another size, to be redrawn.
pub open spec fn with_size(s: ScreenView, size: Size) -> ScreenView {
    ScreenView {
        size,
        front: resized(s.front, size.width, size.height),
        renderer: RendererView { clear: true, ..s.renderer },
        ..s
    }
}

/// A screen whose cursor has been sent to `to`.
pub open spec fn cursor_sent(s: ScreenView, to: Position) -> ScreenView {
    let pen = moved(
        Pen { bytes: s.out, at: s.renderer.cursor },
        to,
        s.renderer.relative_cursor,
    );
    ScreenView {
        out: pen.bytes,
        renderer: RendererView { cursor: pen.at, ..s.renderer },
        ..s
    }
}

/// `v`, or `limit` where that is less.
pub open spec fn at_most(v: u16, limit: int) -> u16 {
    if v <= limit {
        v
    } else if limit < 0 {
        0
    } else {
        limit as u16
    }
}

/// `pos` moved to the nearest edge of an area of this size.
pub open spec fn clamped(pos: Position, size: Size) -> Position {
    Position { x: at_most(pos.x, size.width - 1), y: at_most(pos.y, size.height - 1) }
}

/// Whether the next frame has to move the cursor although no cell changes.
pub open spec fn cursor_move_due(s: ScreenView) -> bool {
    s.state.desired_cursor is Some && s.renderer.cursor != Some(
        clamped(s.state.desired_cursor->0, s.size),
    )
}

/// Whether a frame hides the cursor while it draws: when it is visible, and the
/// frame is not presented in one step anyway.
pub open spec fn hides_cursor(state: StateView) -> bool {
    state.cursor_visible && !state.sync_updates
}

/// A screen with one frame staged: the cells, then the cursor where the
/// application wants it, between the sequences that keep the terminal from showing
/// the frame half-done.
pub open spec fn framed(s: ScreenView) -> ScreenView {
    let a = if s.state.sync_updates {
        staged(s, set_bytes(Mode::synchronized_output()))
    } else {
        s
    };
    let b = if hides_cursor(s.state) {
        staged(a, reset_bytes(Mode::cursor_visible()))
    } else {
        a
    };
    let c = ScreenView {
        out: frame_drawn(b.renderer, b.front, b.out).bytes,
        renderer: after_frame(b.renderer, b.front, b.size, b.out),
        ..b
    };
    let d = match s.state.desired_cursor {
        Some(pos) => cursor_sent(c, clamped(pos, s.size)),
        None => c,
    };
    let e = if hides_cursor(s.state) {
        staged(d, set_bytes(Mode::cursor_visible()))
    } else {
        d
    };
    if s.state.sync_updates {
        staged(e, reset_bytes(Mode::synchronized_output()))
    } else {
        e
    }
}

/// A screen after rendering: with a frame staged where one is due.
pub open spec fn rendered(s: ScreenView) -> ScreenView {
    if frame_changes(s.renderer, s.front) || cursor_move_due(s) {
        framed(s)
    } else {
        s
    }
}

/// The bytes that switch to the alternate screen buffer, or back.
pub open spec fn switch_bytes(on: bool) -> Seq<u8> {
    if on {
        set_bytes(Mode::alt_screen_save_cursor())
    } else {
        reset_bytes(Mode::alt_screen_save_cursor())
    }
}

/// A screen that draws on the other buffer.
pub open spec fn buffer_taken_over(s: ScreenView, on: bool) -> ScreenView {
    ScreenView {
        state: StateView { alt_screen: on, ..s.state },
        renderer: renderer_switched(s.renderer, on),
        ..s
    }
}

/// A screen switched to the other buffer. The escape sequence is always staged; the
/// bookkeeping happens on an actual change.
pub open spec fn buffer_switched(s: ScreenView, on: bool) -> ScreenView {
    let there = staged(s, switch_bytes(on));
    if s.state.alt_screen == on {
        there
    } else {
        buffer_taken_over(there, on)
    }
}

/// A screen with the alternate screen on or off, and the Kitty keyboard flags
/// applied to a buffer that was newly entered.
pub open spec fn alt_screen_set(s: ScreenView, on: bool) -> ScreenView {
    let switched = buffer_switched(s, on);
    if s.state.alt_screen == on || s.state.kitty_keyboard.is_empty() {
        switched
    } else {
        staged(switched, set_keyboard_bytes(s.state.kitty_keyboard))
    }
}

/// A screen with the cursor shown or hidden.
pub open spec fn cursor_visibility_set(s: ScreenView, visible: bool) -> ScreenView {
    with_state(
        staged(
            s,
            if visible {
                set_bytes(Mode::cursor_visible())
            } else {
                reset_bytes(Mode::cursor_visible())
            },
        ),
        StateView { cursor_visible: visible, ..s.state },
    )
}

/// A screen with grapheme-cluster mode on or off.
pub open spec fn grapheme_clusters_set(s: ScreenView, on: bool) -> ScreenView {
    with_state(
        staged(
            s,
            if on {
                set_bytes(Mode::unicode_core())
            } else {
                reset_bytes(Mode::unicode_core())
            },
        ),
        StateView { grapheme_clusters: on, ..s.state },
    )
}

/// A screen with these Kitty keyboard flags.
pub open spec fn kitty_keyboard_set(s: ScreenView, flags: KittyKeyboardFlags) -> ScreenView {
    with_state(
        staged(s, set_keyboard_bytes(flags)),
        StateView { kitty_keyboard: flags, ..s.state },
    )
}

/// How many rows line `i` of inserted text spills over, for an area of this width.
pub open spec fn spilled_rows(widths: Seq<u16>, i: int, width: u16) -> int {
    if width == 0 || i >= widths.len() {
        0
    } else {
        (widths[i] / width) as int
    }
}

/// `a + b`, at most the largest `u16`.
pub open spec fn saturating_sum(a: int, b: int) -> int {
    if a + b > u16::MAX {
        u16::MAX as int
    } else {
        a + b
    }
}

/// How many rows the first `n` lines of inserted text take up, starting from
/// `lines` rows, one per line.
pub open spec fn inserted_rows(widths: Seq<u16>, width: u16, lines: int, n: int) -> int
    decreases n,
{
    if n <= 0 {
        lines
    } else {
        saturating_sum(
            inserted_rows(widths, width, lines, n - 1),
            spilled_rows(widths, n - 1, width),
        )
    }
}

/// The lines of inserted text, each cleared to its end.
pub open spec fn line_bytes(lines: Seq<Seq<u8>>) -> Seq<u8>
    decreases lines.len(),
{
    if lines.len() == 0 {
        Seq::empty()
    } else {
        line_bytes(lines.drop_last()) + lines.last() + ERASE_LINE_RIGHT.spec_bytes()
            + "\r\n".spec_bytes()
    }
}

/// The bytes that insert `content` above a managed area of this size with the
/// cursor on row `y`: make room below, go back up, insert the rows, write the lines.
pub open spec fn insert_above_bytes(
    content: Seq<u8>,
    widths: Seq<u16>,
    size: Size,
    y: u16,
) -> Seq<u8> {
    let lines = split(content, 0x0a);
    let rows = inserted_rows(widths, size.width, (lines.len() as u16) as int, lines.len() as int);
    "\r".spec_bytes() + down_bytes(size.height - y - 1) + line_feeds(rows) + up_bytes(
        saturating_sum(rows, size.height as int) - 1,
    ) + insert_lines_bytes(rows as nat) + line_bytes(lines)
}

/// The bytes that move the cursor down, if at all.
pub open spec fn down_bytes(n: int) -> Seq<u8> {
    if n > 0 {
        cud_bytes(n as nat)
    } else {
        Seq::empty()
    }
}

/// The bytes that move the cursor up, if at all.
pub open spec fn up_bytes(n: int) -> Seq<u8> {
    if n > 0 {
        cuu_bytes(n as nat)
    } else {
        Seq::empty()
    }
}

/// The row of the cursor, or the first row where it is not known.
pub open spec fn cursor_row(r: RendererView) -> u16 {
    match r.cursor {
        Some(pos) => pos.y,
        None => 0,
    }
}

/// A screen with `content` inserted above the managed area; unchanged for no
/// content.
pub open spec fn inserted_above(s: ScreenView, content: Seq<char>, widths: Seq<u16>) -> ScreenView {
    if content.len() == 0 {
        s
    } else {
        let bytes = insert_above_bytes(
            vstd::utf8::encode_utf8(content),
            widths,
            s.size,
            cursor_row(s.renderer),
        );
        ScreenView {
            out: s.out + bytes,
            renderer: RendererView { cursor: Some(Position::origin()), ..s.renderer },
            ..s
        }
    }
}

/// `v + d`, kept within `u16`.
pub open spec fn offset(v: u16, d: i16) -> int {
    if v + d < 0 {
        0
    } else if v + d > u16::MAX {
        u16::MAX as int
    } else {
        v + d
    }
}

/// A screen whose cursor has been sent by so many columns and rows from where it is tracked.
pub open spec fn cursor_shifted(s: ScreenView, dx: i16, dy: i16) -> ScreenView {
    let from = match s.renderer.cursor {
        Some(pos) => pos,
        None => Position::origin(),
    };
    cursor_sent(s, Position { x: offset(from.x, dx) as u16, y: offset(from.y, dy) as u16 })
}

/// `v - d`, at least zero.
pub open spec fn difference(v: u16, d: u16) -> u16 {
    if v < d {
        0
    } else {
        (v - d) as u16
    }
}

impl Screen {
    /// The grids are rectangular, and the grid that is drawn on has the size of the
    /// managed area.
    pub closed spec fn well_formed(&self) -> bool {
        &&& self.front.well_formed()
        &&& self.renderer.well_formed()
        &&& self.front@.len() == self.height
        &&& self.front.spec_width() == self.width
    }

    /// The grid that is drawn on has the size of the managed area.
    pub proof fn law_grid_fills_area(&self)
        requires
            self.well_formed(),
        ensures
            self@.front.len() == self@.size.height,
            rectangular(self@.front, self@.size.width),
    {
        self.front.lemma_rectangular();
    }

    /// Append raw bytes to the staged output, in order with everything else.
    pub fn write(&mut self, bytes: &[u8])
        requires
            old(self).well_formed(),
        ensures
            final(self).well_formed(),
            final(self)@ == staged(old(self)@, bytes@),
    {
        append(&mut self.out, bytes);
    }

    /// Hand over the staged output.
    pub fn take_output(&mut self) -> (r: Vec<u8>)
        requires
            old(self).well_formed(),
        ensures
            final(self).well_formed(),
            r@ == old(self)@.out,
            final(self)@ == (ScreenView { out: Seq::empty(), ..old(self)@ }),
    {
        let mut taken: Vec<u8> = Vec::new();
        append(&mut taken, self.out.as_slice());
        assert(taken@ =~= self.out@);
        self.out.clear();
        taken
    }

    /// Write `cell` at `pos` in the desired frame.
    pub fn set_cell(&mut self, pos: Position, cell: &Cell)
        requires
            old(self).well_formed(),
        ensures
            final(self).well_formed(),
            final(self)@ == (ScreenView {
                front: with_cell(old(self)@.front, pos, *cell),
                ..old(self)@
            }),
    {
        self.front.set_cell(pos, *cell);
    }

    /// Borrow the cell at `pos` mutably, if it is in the managed area.
    pub fn cell_mut(&mut self, pos: Position) -> (r: Option<&mut Cell>)
        requires
            old(self).well_formed(),
        ensures
            match r {
                Some(cell) => {
                    &&& pos.y < old(self)@.front.len() && pos.x < old(
                        self,
                    )@.front[pos.y as int].len()
                    &&& *cell == old(self)@.front[pos.y as int][pos.x as int]
                    &&& final(self)@ == (ScreenView {
                        front: with_cell(old(self)@.front, pos, *final(cell)),
                        ..old(self)@
                    })
                },
                None => {
                    &&& !(pos.y < old(self)@.front.len() && pos.x < old(
                        self,
                    )@.front[pos.y as int].len())
                    &&& final(self)@ == old(self)@
                },
            },
            final(self).well_formed(),
    {
        self.front.cell_mut(pos)
    }

    /// The cell at `pos` of the desired frame, if there is one.
    pub fn cell(&self, pos: Position) -> (r: Option<Cell>)
        ensures
            r == (if pos.y < self@.front.len() && pos.x < self@.front[pos.y as int].len() {
                Some(self@.front[pos.y as int][pos.x as int])
            } else {
                None
            }),
    {
        self.front.cell(pos)
    }

    /// Diff the staged frame against what the terminal shows and stage the bytes
    /// that bring it in line. The cursor is left where
    /// [`set_cursor_position`](Self::set_cursor_position) wants it.
    pub fn render(&mut self)
        requires
            old(self).well_formed(),
        ensures
            final(self).well_formed(),
            final(self)@ == rendered(old(self)@),
    {
        if self.renderer.frame_pending(&self.front) || self.cursor_move_pending() {
            self.write_frame();
        }
    }

    /// Stage a single frame.
    fn write_frame(&mut self)
        requires
            old(self).well_formed(),
        ensures
            final(self).well_formed(),
            final(self)@ == framed(old(self)@),
    {
        let bracket_cursor = self.state.cursor_visible && !self.state.sync_updates;
        if self.state.sync_updates {
            Mode::synchronized_output().set(&mut self.out);
        }
        if bracket_cursor {
            Mode::cursor_visible().reset(&mut self.out);
        }
        let size = Size { width: self.width, height: self.height };
        self.renderer.render_back(&mut self.out, &self.front, size);
        if let Some(pos) = self.state.desired_cursor {
            let target = self.clamp_to_surface(pos);
            self.renderer.move_to(&mut self.out, target);
        }
        if bracket_cursor {
            Mode::cursor_visible().set(&mut self.out);
        }
        if self.state.sync_updates {
            Mode::synchronized_output().reset(&mut self.out);
        }
    }

    /// Clamp a position to the managed area's edges.
    fn clamp_to_surface(&self, pos: Position) -> (r: Position)
        ensures
            r == clamped(pos, self@.size),
    {
        let right: u16 = if self.width == 0 {
            0
        } else {
            self.width - 1
        };
        let bottom: u16 = if self.height == 0 {
            0
        } else {
            self.height - 1
        };
        Position {
            x: if pos.x <= right {
                pos.x
            } else {
                right
            },
            y: if pos.y <= bottom {
                pos.y
            } else {
                bottom
            },
        }
    }

    /// Whether the next frame has to move the cursor although no cell changes.
    fn cursor_move_pending(&self) -> (r: bool)
        ensures
            r == cursor_move_due(self@),
    {
        match self.state.desired_cursor {
            Some(pos) => {
                let target = self.clamp_to_surface(pos);
                match self.renderer.cursor() {
                    Some(at) => at != target,
                    None => true,
                }
            },
            None => false,
        }
    }

    /// Redraw everything with the next [`render`](Self::render).
    pub fn invalidate(&mut self)
        requires
            old(self).well_formed(),
        ensures
            final(self).well_formed(),
            final(self)@ == with_renderer(
                old(self)@,
                RendererView { clear: true, ..old(self)@.renderer },
            ),
    {
        self.renderer.request_clear();
    }

    /// Resize the managed area.
    pub fn resize(&mut self, size: Size)
        requires
            old(self).well_formed(),
        ensures
            final(self).well_formed(),
            final(self)@ == with_size(old(self)@, size),
    {
        self.width = size.width;
        self.height = size.height;
        self.front.resize(size.width, size.height);
        self.renderer.request_clear();
    }

    /// Insert `content` into the scrollback above the managed area, which stays in
    /// place. `widths` holds the width of each line in cells. An empty string does
    /// nothing.
    pub fn insert_above(&mut self, content: &str, widths: &[u16])
        requires
            old(self).well_formed(),
        ensures
            final(self).well_formed(),
            final(self)@ == inserted_above(old(self)@, content@, widths@),
    {
        if content.is_empty() {
            return;
        }
        let y: u16 = match self.renderer.cursor() {
            Some(pos) => pos.y,
            None => 0,
        };
        let size = self.size();
        write_inserted(&mut self.out, content, widths, size, y);
        self.renderer.set_cursor(Some(Position::origin()));
    }

    /// The managed area size in cells.
    pub fn size(&self) -> (r: Size)
        ensures
            r == self@.size,
    {
        Size { width: self.width, height: self.height }
    }

    /// Move the terminal cursor to a position of the managed area. Nothing is
    /// staged where it is known to be there. The resting position of
    /// [`set_cursor_position`](Self::set_cursor_position) is not affected.
    pub fn move_cursor_to(&mut self, pos: Position)
        requires
            old(self).well_formed(),
        ensures
            final(self).well_formed(),
            final(self)@ == cursor_sent(old(self)@, pos),
    {
        self.renderer.move_to(&mut self.out, pos);
    }

    /// Move the terminal cursor relative to the tracked cursor, stopping at the
    /// first row and column. An unknown cursor counts as the origin.
    pub fn move_cursor_by(&mut self, dx: i16, dy: i16)
        requires
            old(self).well_formed(),
        ensures
            final(self).well_formed(),
            final(self)@ == cursor_shifted(old(self)@, dx, dy),
    {
        let from = match self.renderer.cursor() {
            Some(pos) => pos,
            None => Position::origin(),
        };
        let to = Position { x: add_signed(from.x, dx), y: add_signed(from.y, dy) };
        self.move_cursor_to(to);
    }

    /// Stage a resting position for the cursor, applied at the end of every frame
    /// until it is changed or cleared. A position outside the managed area is
    /// clamped to its edges.
    pub fn set_cursor_position(&mut self, pos: Position)
        requires
            old(self).well_formed(),
        ensures
            final(self).well_formed(),
            final(self)@ == with_state(
                old(self)@,
                StateView { desired_cursor: Some(pos), ..old(self)@.state },
            ),
    {
        self.state.desired_cursor = Some(pos);
    }

    /// Clear the resting position, leaving the cursor wherever a frame ends.
    pub fn clear_cursor_position(&mut self)
        requires
            old(self).well_formed(),
        ensures
            final(self).well_formed(),
            final(self)@ == with_state(
                old(self)@,
                StateView { desired_cursor: None, ..old(self)@.state },
            ),
    {
        self.state.desired_cursor = None;
    }

    /// Where the terminal cursor is believed to be, or `None` when that is unknown.
    pub fn tracked_cursor(&self) -> (r: Option<Position>)
        ensures
            r == self@.renderer.cursor,
    {
        self.renderer.cursor()
    }

    /// Mark the tracked cursor position unknown.
    pub fn invalidate_tracked_cursor(&mut self)
        requires
            old(self).well_formed(),
        ensures
            final(self).well_formed(),
            final(self)@ == with_renderer(
                old(self)@,
                RendererView { cursor: None, ..old(self)@.renderer },
            ),
    {
        self.renderer.set_cursor(None);
    }

    /// Set the tracked cursor without moving the terminal's.
    pub fn set_tracked_cursor(&mut self, pos: Position)
        requires
            old(self).well_formed(),
        ensures
            final(self).well_formed(),
            final(self)@ == with_renderer(
                old(self)@,
                RendererView { cursor: Some(pos), ..old(self)@.renderer },
            ),
    {
        self.renderer.set_cursor(Some(pos));
    }

    /// Enter the alternate screen.
    pub fn enter_alt_screen(&mut self)
        requires
            old(self).well_formed(),
        ensures
            final(self).well_formed(),
            final(self)@ == alt_screen_set(old(self)@, true),
    {
        self.stage_set_alt_screen(true);
    }

    /// Leave the alternate screen.
    pub fn exit_alt_screen(&mut self)
        requires
            old(self).well_formed(),
        ensures
            final(self).well_formed(),
            final(self)@ == alt_screen_set(old(self)@, false),
    {
        self.stage_set_alt_screen(false);
    }

    fn stage_set_alt_screen(&mut self, alt_screen: bool)
        requires
            old(self).well_formed(),
        ensures
            final(self).well_formed(),
            final(self)@ == alt_screen_set(old(self)@, alt_screen),
    {
        let changed = self.state.alt_screen != alt_screen;
        let kitty = self.state.kitty_keyboard;
        self.switch_buffer(alt_screen);
        // The keyboard stack is per screen buffer: apply the flags to the buffer
        // that was entered.
        if changed && !kitty.is_empty() {
            write_set_kitty_keyboard(&mut self.out, kitty);
        }
    }

    /// Stage the switch and, on an actual change, take over the other buffer's
    /// cursor and layout.
    fn switch_buffer(&mut self, alt_screen: bool)
        requires
            old(self).well_formed(),
        ensures
            final(self).well_formed(),
            final(self)@ == buffer_switched(old(self)@, alt_screen),
    {
        let changed = self.state.alt_screen != alt_screen;
        self.stage_buffer_switch(alt_screen);
        if changed {
            self.take_over_buffer(alt_screen);
        }
    }

    fn stage_buffer_switch(&mut self, alt_screen: bool)
        requires
            old(self).well_formed(),
        ensures
            final(self).well_formed(),
            final(self)@ == staged(old(self)@, switch_bytes(alt_screen)),
    {
        if alt_screen {
            Mode::alt_screen_save_cursor().set(&mut self.out);
        } else {
            Mode::alt_screen_save_cursor().reset(&mut self.out);
        }
    }

    fn take_over_buffer(&mut self, alt_screen: bool)
        requires
            old(self).well_formed(),
        ensures
            final(self).well_formed(),
            final(self)@ == buffer_taken_over(old(self)@, alt_screen),
    {
        self.state.alt_screen = alt_screen;
        self.renderer.switch_buffer(alt_screen);
    }

    /// Show the cursor.
    pub fn show_cursor(&mut self)
        requires
            old(self).well_formed(),
        ensures
            final(self).well_formed(),
            final(self)@ == cursor_visibility_set(old(self)@, true),
    {
        Mode::cursor_visible().set(&mut self.out);
        self.state.cursor_visible = true;
    }

    /// Hide the cursor.
    pub fn hide_cursor(&mut self)
        requires
            old(self).well_formed(),
        ensures
            final(self).well_formed(),
            final(self)@ == cursor_visibility_set(old(self)@, false),
    {
        Mode::cursor_visible().reset(&mut self.out);
        self.state.cursor_visible = false;
    }

    /// Enable or disable synchronized-output frame wrapping. The markers are staged
    /// with the next frame.
    pub fn set_synchronized_output(&mut self, enabled: bool)
        requires
            old(self).well_formed(),
        ensures
            final(self).well_formed(),
            final(self)@ == with_state(
                old(self)@,
                StateView { sync_updates: enabled, ..old(self)@.state },
            ),
    {
        self.state.sync_updates = enabled;
    }

    /// Enable Unicode core / grapheme-cluster mode (mode 2027).
    pub fn enable_grapheme_clusters(&mut self)
        requires
            old(self).well_formed(),
        ensures
            final(self).well_formed(),
            final(self)@ == grapheme_clusters_set(old(self)@, true),
    {
        Mode::unicode_core().set(&mut self.out);
        self.state.grapheme_clusters = true;
    }

    /// Disable grapheme-cluster mode (mode 2027).
    pub fn disable_grapheme_clusters(&mut self)
        requires
            old(self).well_formed(),
        ensures
            final(self).well_formed(),
            final(self)@ == grapheme_clusters_set(old(self)@, false),
    {
        Mode::unicode_core().reset(&mut self.out);
        self.state.grapheme_clusters = false;
    }

    /// Set the Kitty keyboard enhancements; `None` disables every one.
    pub fn set_kitty_keyboard(&mut self, flags: Option<KittyKeyboardFlags>)
        requires
            old(self).well_formed(),
        ensures
            final(self).well_formed(),
            final(self)@ == kitty_keyboard_set(
                old(self)@,
                match flags {
                    Some(flags) => flags,
                    None => KittyKeyboardFlags::empty(),
                },
            ),
    {
        let flags = match flags {
            Some(flags) => flags,
            None => KittyKeyboardFlags::empty(),
        };
        write_set_kitty_keyboard(&mut self.out, flags);
        self.state.kitty_keyboard = flags;
    }

    /// Set the color profile.
    pub fn set_color_profile(&mut self, profile: Profile)
        requires
            old(self).well_formed(),
        ensures
            final(self).well_formed(),
            final(self)@ == with_renderer(
                old(self)@,
                RendererView { color_profile: profile, ..old(self)@.renderer },
            ),
    {
        self.renderer.set_color_profile(profile);
    }

    /// The color profile.
    pub fn color_profile(&self) -> (r: Profile)
        ensures
            r == self@.renderer.color_profile,
    {
        self.renderer.color_profile()
    }

    /// Set the renderer optimization flags.
    pub fn set_optimizations(&mut self, optimizations: Optimizations)
        requires
            old(self).well_formed(),
        ensures
            final(self).well_formed(),
            final(self)@ == with_renderer(
                old(self)@,
                RendererView { optimizations, ..old(self)@.renderer },
            ),
    {
        self.renderer.set_optimizations(optimizations);
    }

    /// The renderer optimization flags in effect.
    pub fn optimizations(&self) -> (r: Optimizations)
        ensures
            r == self@.renderer.optimizations,
    {
        self.renderer.optimizations()
    }

    /// Whether grapheme-cluster mode is active.
    pub fn grapheme_clusters(&self) -> (r: bool)
        ensures
            r == self@.state.grapheme_clusters,
    {
        self.state.grapheme_clusters
    }

    /// How the terminal counts the cells of a text.
    pub fn width_mode(&self) -> (r: WidthMode)
        ensures
            r == (if self@.state.grapheme_clusters {
                WidthMode::Grapheme
            } else {
                WidthMode::Wc
            }),
    {
        if self.state.grapheme_clusters {
            WidthMode::Grapheme
        } else {
            WidthMode::Wc
        }
    }

    /// Whether resizes have to be detected outside the input stream.
    pub fn handle_resize(&self) -> (r: bool)
        ensures
            r == self@.handle_resize,
    {
        self.handle_resize
    }

    /// What the terminal is known to support.
    pub fn capabilities(&self) -> (r: Capabilities)
        ensures
            r == self@.caps,
    {
        self.caps
    }

    /// The last observed terminal size in cells.
    pub fn window_cells(&self) -> (r: Option<Size>)
        ensures
            r == self@.window_cells,
    {
        self.window_cells
    }

    /// The last observed terminal size in pixels.
    pub fn window_pixels(&self) -> (r: Option<Size>)
        ensures
            r == self@.window_pixels,
    {
        self.window_pixels
    }

    /// The terminal's own name (XTVERSION), once it has been observed.
    pub fn terminal_name(&self) -> (r: Option<&str>)
        ensures
            r is Some == self@.terminal_name is Some,
            r is Some ==> r->0@ == self@.terminal_name->0,
    {
        match &self.terminal_name {
            Some(name) => Some(name.as_str()),
            None => None,
        }
    }

    /// Convert a mouse event in pixels to cells. `None` until the window size in
    /// pixels has been observed.
    pub fn mouse_pixels_to_cells(&self, mouse: Mouse) -> (r: Option<Mouse>)
        ensures
            r is Some == self@.window_pixels is Some,
            r matches Some(m) ==> ({
                let pixels = self@.window_pixels->0;
                let cells = match self@.window_cells {
                    Some(cells) => cells,
                    None => self@.size,
                };
                &&& m.x == pixel_to_cell(mouse.x, pixels.width, cells.width)
                &&& m.y == pixel_to_cell(mouse.y, pixels.height, cells.height)
                &&& m.button == mouse.button
                &&& m.modifiers == mouse.modifiers
            }),
    {
        let pixels = match self.window_pixels {
            Some(pixels) => pixels,
            None => return None,
        };
        let cells = match self.window_cells {
            Some(cells) => cells,
            None => self.size(),
        };
        Some(
            mouse_pixel_to_cell(
                mouse,
                pixels.width,
                pixels.height,
                cells.width,
                cells.height,
            ),
        )
    }

    /// Where the managed area begins on the terminal: the origin in the alternate
    /// screen, else the tracked position.
    pub fn origin(&self) -> (r: Position)
        ensures
            r == effective_origin(self@),
    {
        if self.state.alt_screen {
            Position::origin()
        } else {
            self.origin
        }
    }

    /// Whether inline origin tracking is enabled.
    pub fn origin_tracking(&self) -> (r: bool)
        ensures
            r == self@.options.track_origin,
    {
        self.options.track_origin
    }

    /// Translate a mouse event from terminal cells into cells of the managed area.
    /// Coordinates above or left of the area become zero.
    pub fn mouse_to_origin(&self, mouse: Mouse) -> (r: Mouse)
        ensures
            r == relative_mouse(mouse, effective_origin(self@)),
    {
        let origin = self.origin();
        Mouse::new(
            subtract(mouse.x, origin.x),
            subtract(mouse.y, origin.y),
            mouse.button,
            mouse.modifiers,
        )
    }
}

/// Where the managed area begins on the terminal.
pub open spec fn effective_origin(s: ScreenView) -> Position {
    if s.state.alt_screen {
        Position::origin()
    } else {
        s.origin
    }
}

/// A mouse event relative to `origin`.
pub open spec fn relative_mouse(mouse: Mouse, origin: Position) -> Mouse {
    Mouse {
        x: difference(mouse.x, origin.x),
        y: difference(mouse.y, origin.y),
        button: mouse.button,
        modifiers: mouse.modifiers,
    }
}

/// `v - d`, at least zero.
fn subtract(v: u16, d: u16) -> (r: u16)
    ensures
        r == difference(v, d),
{
    if v < d {
        0
    } else {
        v - d
    }
}

/// `v + d`, kept within `u16`.
fn add_signed(v: u16, d: i16) -> (r: u16)
    ensures
        r == offset(v, d),
{
    let sum: i32 = v as i32 + d as i32;
    if sum < 0 {
        0
    } else if sum > 0xffff {
        0xffff
    } else {
        sum as u16
    }
}

/// How many rows inserted text takes up: one per line, and what long lines spill
/// over.
fn count_inserted_rows(widths: &[u16], width: u16, lines: usize) -> (r: u16)
    ensures
        r == inserted_rows(widths@, width, (lines as u16) as int, lines as int),
{
    let mut rows: u16 = #[verifier::truncate]
    (lines as u16);
    let mut i: usize = 0;
    while i < lines
        invariant
            0 <= i <= lines,
            rows == inserted_rows(widths@, width, (lines as u16) as int, i as int),
        decreases lines - i,
    {
        let spilled: u16 = if width == 0 || i >= widths.len() {
            0
        } else {
            widths[i] / width
        };
        let sum: u32 = rows as u32 + spilled as u32;
        rows = if sum > 0xffff {
            0xffff
        } else {
            sum as u16
        };
        i += 1;
    }
    rows
}

/// Write what inserts `content` above the managed area.
fn write_inserted(out: &mut Vec<u8>, content: &str, widths: &[u16], size: Size, y: u16)
    ensures
        final(out)@ == old(out)@ + insert_above_bytes(content.spec_bytes(), widths@, size, y),
{
    let lines = split_fields(content.as_bytes(), 0x0a);
    let rows: u16 = count_inserted_rows(widths, size.width, lines.len());
    assert(fields_view(lines@).len() == lines@.len());
    append_str(out, "\r");
    write_down(out, size.height, y);
    write_line_feeds(out, rows);
    write_back_up(out, rows, size.height);
    write_insert_lines(out, rows as u32);
    write_lines(out, &lines);
    assert(out@ =~= old(out)@ + insert_above_bytes(content.spec_bytes(), widths@, size, y));
}

/// Move from row `y` to the last row of the area.
fn write_down(out: &mut Vec<u8>, height: u16, y: u16)
    ensures
        final(out)@ == old(out)@ + down_bytes(height - y - 1),
{
    if height > y && height - y > 1 {
        write_cud(out, (height - y - 1) as u32);
    } else {
        assert(out@ =~= old(out)@ + Seq::<u8>::empty());
    }
}

/// Move up over the inserted rows and the area.
fn write_back_up(out: &mut Vec<u8>, rows: u16, height: u16)
    ensures
        final(out)@ == old(out)@ + up_bytes(saturating_sum(rows as int, height as int) - 1),
{
    let total: u32 = rows as u32 + height as u32;
    if total > 1 {
        write_cuu(
            out,
            if total > 0xffff {
                0xfffe
            } else {
                total - 1
            },
        );
    } else {
        assert(out@ =~= old(out)@ + Seq::<u8>::empty());
    }
}

/// Write the lines of inserted text.
fn write_lines(out: &mut Vec<u8>, lines: &Vec<Vec<u8>>)
    ensures
        final(out)@ == old(out)@ + line_bytes(fields_view(lines@)),
{
    let ghost all = fields_view(lines@);
    let ghost start = out@;
    let mut i: usize = 0;
    assert(out@ =~= start + line_bytes(all.subrange(0, 0)));
    while i < lines.len()
        invariant
            0 <= i <= lines@.len(),
            all == fields_view(lines@),
            out@ == start + line_bytes(all.subrange(0, i as int)),
        decreases lines@.len() - i,
    {
        proof {
            let next = all.subrange(0, i + 1);
            assert(next.drop_last() =~= all.subrange(0, i as int));
            assert(next.last() == lines@[i as int]@);
        }
        append(out, lines[i].as_slice());
        append_str(out, ERASE_LINE_RIGHT);
        append_str(out, "\r\n");
        assert(out@ =~= start + line_bytes(all.subrange(0, i + 1)));
        i += 1;
    }
    assert(all.subrange(0, all.len() as int) =~= all);
}

} // verus!
