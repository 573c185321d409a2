//! What the screen learns from the events that the application feeds back to it.
//!
//! Reading an event does not track anything: an application passes every event that
//! it takes to [`Screen::observe_event`].

use crate::ansi::kitty::KittyKeyboardFlags;
use crate::ansi::mode::Mode;
use crate::ansi::query::REQUEST_WINDOW_PIXEL_SIZE;
use crate::bytes::{append_str, contains, occurs_in};
use crate::color::Profile;
use crate::event::{events_view, Event, EventView, ModifyOtherKeysMode};
use crate::layout::{Position, Size, Winsize};
use crate::screen::modes::{
    in_band_resize_set, modify_other_keys_set, mouse_enabled, origin_requested,
};
use crate::screen::renderer::RendererView;
use crate::screen::state::{Capabilities, StateView};
use crate::screen::{
    difference, grapheme_clusters_set, kitty_keyboard_set, staged, with_state, Screen, ScreenView,
};
use vstd::prelude::*;
use vstd::string::*;
use vstd::utf8::encode_utf8;

verus! {

/// A screen with other capabilities.
pub open spec fn with_caps(s: ScreenView, caps: Capabilities) -> ScreenView {
    ScreenView { caps, ..s }
}

/// A screen that has learned that the terminal offers `mode`. Synchronized output
/// and grapheme clusters are put to use at once; the rest is the application's choice.
#[verifier::opaque]
pub open spec fn mode_observed(s: ScreenView, mode: Mode) -> ScreenView {
    if mode == Mode::synchronized_output() {
        with_state(
            with_caps(s, Capabilities { synchronized_output: true, ..s.caps }),
            StateView { sync_updates: true, ..s.state },
        )
    } else if mode == Mode::unicode_core() {
        grapheme_clusters_set(
            with_caps(s, Capabilities { grapheme_clusters: true, ..s.caps }),
            true,
        )
    } else {
        with_caps(s, mode_noted(s.caps, mode))
    }
}

/// The capabilities with one that a mode stands for.
pub open spec fn mode_noted(caps: Capabilities, mode: Mode) -> Capabilities {
    if mode == Mode::in_band_resize() {
        Capabilities { in_band_resize: true, ..caps }
    } else if mode == Mode::visibility_reports() {
        Capabilities { visibility_reports: true, ..caps }
    } else if mode == Mode::mouse_normal() {
        Capabilities { mouse_normal: true, ..caps }
    } else if mode == Mode::mouse_button() {
        Capabilities { mouse_button: true, ..caps }
    } else if mode == Mode::mouse_any() {
        Capabilities { mouse_any: true, ..caps }
    } else if mode == Mode::mouse_sgr() {
        Capabilities { mouse_sgr: true, ..caps }
    } else if mode == Mode::mouse_sgr_pixel() {
        Capabilities { mouse_sgr_pixel: true, ..caps }
    } else {
        caps
    }
}

/// The keyboard enhancements of the options, as far as the terminal has them: the Kitty
/// protocol, else modifyOtherKeys, else none.
pub open spec fn keyboard_enhanced(s: ScreenView) -> ScreenView {
    if s.options.keyboard_enhancements.is_empty() {
        s
    } else if s.caps.kitty_keyboard {
        kitty_keyboard_set(s, s.options.keyboard_enhancements)
    } else if s.caps.modify_other_keys {
        modify_other_keys_set(s, ModifyOtherKeysMode::Mode2)
    } else {
        s
    }
}

/// A screen that gets its resizes in band, where the options prefer that and the
/// terminal offers it.
pub open spec fn resize_preferred(s: ScreenView) -> ScreenView {
    if s.options.prefer_in_band_resize && s.caps.in_band_resize {
        ScreenView { handle_resize: false, ..in_band_resize_set(s, true) }
    } else {
        s
    }
}

/// A screen with the mouse tracking of its options.
pub open spec fn mouse_preferred(s: ScreenView) -> ScreenView {
    match s.options.mouse {
        Some(tracking) => mouse_enabled(s, tracking),
        None => s,
    }
}

/// A screen with the discovery-driven defaults of its options.
pub open spec fn with_defaults(s: ScreenView) -> ScreenView {
    mouse_preferred(keyboard_enhanced(resize_preferred(s)))
}

/// The capabilities with those that the primary device attributes show.
pub open spec fn attributes_noted(caps: Capabilities, attrs: Seq<Option<u32>>) -> Capabilities {
    Capabilities {
        sixel: caps.sixel || attrs.contains(Some(4u32)),
        clipboard: caps.clipboard || attrs.contains(Some(52u32)),
        ..caps
    }
}

/// A screen that has seen the primary device attributes. They end the replies to the
/// capability queries, so the defaults are applied, once.
#[verifier::opaque]
pub open spec fn attributes_observed(s: ScreenView, attrs: Seq<Option<u32>>) -> ScreenView {
    let noted = with_caps(s, attributes_noted(s.caps, attrs));
    if s.defaults_applied {
        noted
    } else {
        with_defaults(ScreenView { defaults_applied: true, ..noted })
    }
}

/// A screen that knows the size of the terminal, in pixels too where `ws` says so. It asks
/// for the pixel size where the options say so, and again for the origin where the size
/// in cells is new.
#[verifier::opaque]
pub open spec fn window_size_cached(s: ScreenView, ws: Winsize) -> ScreenView {
    let sized = pixel_size_cached(
        ScreenView { window_cells: Some(Size { width: ws.col, height: ws.row }), ..s },
        ws,
    );
    if s.window_cells == Some(Size { width: ws.col, height: ws.row }) {
        sized
    } else {
        origin_requested(sized)
    }
}

/// A screen that knows the size of the terminal in pixels, or asks for it.
pub open spec fn pixel_size_cached(s: ScreenView, ws: Winsize) -> ScreenView {
    if ws.xpixel > 0 && ws.ypixel > 0 {
        ScreenView {
            window_pixels: Some(Size { width: ws.xpixel, height: ws.ypixel }),
            ..s
        }
    } else if s.options.request_pixel_size_on_resize && !s.state.in_band_resize {
        staged(s, REQUEST_WINDOW_PIXEL_SIZE.spec_bytes())
    } else {
        s
    }
}

/// The height of the terminal, as far as it is known.
pub open spec fn terminal_height(s: ScreenView) -> u16 {
    match s.window_cells {
        Some(cells) => cells.height,
        None => s.size.height,
    }
}

/// An origin at which the managed area stays on the terminal.
pub open spec fn clipped_origin(s: ScreenView, pos: Position) -> Position {
    let lowest = difference(terminal_height(s), s.size.height);
    Position {
        x: pos.x,
        y: if pos.y < lowest {
            pos.y
        } else {
            lowest
        },
    }
}

/// A screen that has seen a cursor position, which is its origin where it has asked for
/// one.
#[verifier::opaque]
pub open spec fn position_observed(s: ScreenView, pos: Position) -> ScreenView {
    if s.origin_pending {
        ScreenView { origin_pending: false, origin: clipped_origin(s, pos), ..s }
    } else {
        s
    }
}

/// Whether a termcap reply names a direct-color capability.
#[verifier::opaque]
pub open spec fn names_true_color(payload: Seq<char>) -> bool {
    occurs_in(encode_utf8(payload), "RGB".spec_bytes()) || occurs_in(
        encode_utf8(payload),
        "Tc".spec_bytes(),
    )
}

/// A screen that uses direct color, since the terminal has it.
pub open spec fn true_color_observed(s: ScreenView) -> ScreenView {
    ScreenView {
        caps: Capabilities { true_color: true, ..s.caps },
        renderer: RendererView { color_profile: Profile::TrueColor, ..s.renderer },
        ..s
    }
}

/// The screen after it has observed `event`.
pub open spec fn observed(s: ScreenView, event: EventView) -> ScreenView {
    size_observed(reply_observed(s, event), event)
}

/// The screen after it has observed a reply to a capability query.
#[verifier::opaque]
pub open spec fn reply_observed(s: ScreenView, event: EventView) -> ScreenView {
    match event {
        EventView::ModeReport { mode, setting } => if setting.spec_is_available() {
            mode_observed(s, mode)
        } else {
            s
        },
        EventView::KittyKeyboardEnhancements(_) => with_caps(
            s,
            Capabilities { kitty_keyboard: true, ..s.caps },
        ),
        EventView::ModifyOtherKeys(_) => with_caps(
            s,
            Capabilities { modify_other_keys: true, ..s.caps },
        ),
        EventView::PrimaryDeviceAttributes(attrs) => attributes_observed(s, attrs),
        EventView::TerminalName(name) => ScreenView { terminal_name: Some(name), ..s },
        EventView::Termcap { recognized, payload } => if recognized && names_true_color(
            payload,
        ) {
            true_color_observed(s)
        } else {
            s
        },
        _ => s,
    }
}

/// The screen after it has observed a size or a position.
#[verifier::opaque]
pub open spec fn size_observed(s: ScreenView, event: EventView) -> ScreenView {
    match event {
        EventView::Resize(ws) => window_size_cached(s, ws),
        EventView::WindowCellSize { width, height } => ScreenView {
            window_cells: Some(Size { width, height }),
            ..s
        },
        EventView::WindowPixelSize { width, height } => ScreenView {
            window_pixels: Some(Size { width, height }),
            ..s
        },
        EventView::CursorPosition(pos) => position_observed(s, pos),
        _ => s,
    }
}

/// Whether an attribute list holds `n`.
fn has_attribute(attrs: &[Option<u32>], n: u32) -> (r: bool)
    ensures
        r == attrs@.contains(Some(n)),
{
    let mut i: usize = 0;
    while i < attrs.len()
        invariant
            i <= attrs@.len(),
            forall|j: int| 0 <= j < i ==> attrs@[j] != Some(n),
        decreases attrs@.len() - i,
    {
        if let Some(v) = attrs[i] {
            if v == n {
                assert(attrs@[i as int] == Some(n));
                return true;
            }
        }
        i += 1;
    }
    false
}

/// Compute [`mode_noted`].
fn note_mode(caps: Capabilities, mode: Mode) -> (r: Capabilities)
    ensures
        r == mode_noted(caps, mode),
{
    if mode == Mode::in_band_resize() {
        Capabilities { in_band_resize: true, ..caps }
    } else if mode == Mode::visibility_reports() {
        Capabilities { visibility_reports: true, ..caps }
    } else if mode == Mode::mouse_normal() {
        Capabilities { mouse_normal: true, ..caps }
    } else if mode == Mode::mouse_button() {
        Capabilities { mouse_button: true, ..caps }
    } else if mode == Mode::mouse_any() {
        Capabilities { mouse_any: true, ..caps }
    } else if mode == Mode::mouse_sgr() {
        Capabilities { mouse_sgr: true, ..caps }
    } else if mode == Mode::mouse_sgr_pixel() {
        Capabilities { mouse_sgr_pixel: true, ..caps }
    } else {
        caps
    }
}

/// Compute [`names_true_color`].
fn is_true_color_reply(payload: &str) -> (r: bool)
    ensures
        r == names_true_color(payload@),
{
    reveal(names_true_color);
    let bytes = payload.as_bytes();
    contains(bytes, "RGB".as_bytes()) || contains(bytes, "Tc".as_bytes())
}

impl Screen {
    /// Apply an event to what the screen tracks. The event is inspected, never
    /// consumed.
    ///
    /// Replies to the capability queries are recorded, size reports are kept, and the
    /// primary device attributes apply the discovery-driven defaults once.
    pub fn observe_event(&mut self, event: &Event)
        requires
            old(self).well_formed(),
        ensures
            final(self).well_formed(),
            final(self)@ == observed(old(self)@, event@),
    {
        self.observe_reply(event);
        self.observe_size(event);
    }

    fn observe_reply(&mut self, event: &Event)
        requires
            old(self).well_formed(),
        ensures
            final(self).well_formed(),
            final(self)@ == reply_observed(old(self)@, event@),
    {
        reveal(reply_observed);
        match event {
            Event::ModeReport { mode, setting } => {
                if setting.is_available() {
                    self.observe_mode(*mode);
                }
            },
            Event::KittyKeyboardEnhancements(_) => {
                let caps = Capabilities { kitty_keyboard: true, ..self.caps };
                self.note(caps);
            },
            Event::ModifyOtherKeys(_) => {
                let caps = Capabilities { modify_other_keys: true, ..self.caps };
                self.note(caps);
            },
            Event::PrimaryDeviceAttributes(attrs) => self.observe_attributes(attrs.as_slice()),
            Event::TerminalName(name) => self.observe_name(name),
            Event::Termcap { recognized, payload } => {
                if *recognized && is_true_color_reply(payload.as_str()) {
                    self.observe_true_color();
                }
            },
            _ => {},
        }
    }

    fn observe_size(&mut self, event: &Event)
        requires
            old(self).well_formed(),
        ensures
            final(self).well_formed(),
            final(self)@ == size_observed(old(self)@, event@),
    {
        reveal(size_observed);
        match event {
            Event::Resize(ws) => self.cache_window_size(*ws),
            Event::WindowCellSize { width, height } => {
                self.observe_cells(Size::new(*width, *height));
            },
            Event::WindowPixelSize { width, height } => {
                self.observe_pixels(Size::new(*width, *height));
            },
            Event::CursorPosition(pos) => self.observe_position(*pos),
            _ => {},
        }
    }

    pub(crate) fn note(&mut self, caps: Capabilities)
        requires
            old(self).well_formed(),
        ensures
            final(self).well_formed(),
            final(self)@ == with_caps(old(self)@, caps),
    {
        self.caps = caps;
    }

    fn observe_cells(&mut self, size: Size)
        requires
            old(self).well_formed(),
        ensures
            final(self).well_formed(),
            final(self)@ == (ScreenView { window_cells: Some(size), ..old(self)@ }),
    {
        self.window_cells = Some(size);
    }

    fn observe_pixels(&mut self, size: Size)
        requires
            old(self).well_formed(),
        ensures
            final(self).well_formed(),
            final(self)@ == (ScreenView { window_pixels: Some(size), ..old(self)@ }),
    {
        self.window_pixels = Some(size);
    }

    fn observe_mode(&mut self, mode: Mode)
        requires
            old(self).well_formed(),
        ensures
            final(self).well_formed(),
            final(self)@ == mode_observed(old(self)@, mode),
    {
        reveal(mode_observed);
        let caps = self.caps;
        if mode == Mode::synchronized_output() {
            self.note(Capabilities { synchronized_output: true, ..caps });
            self.set_synchronized_output(true);
        } else if mode == Mode::unicode_core() {
            self.note(Capabilities { grapheme_clusters: true, ..caps });
            self.enable_grapheme_clusters();
        } else {
            self.note(note_mode(caps, mode));
        }
    }

    fn observe_attributes(&mut self, attrs: &[Option<u32>])
        requires
            old(self).well_formed(),
        ensures
            final(self).well_formed(),
            final(self)@ == attributes_observed(old(self)@, attrs@),
    {
        reveal(attributes_observed);
        self.note_attributes(attrs);
        if !self.defaults_applied {
            self.defaults_applied = true;
            self.apply_defaults();
        }
    }

    fn note_attributes(&mut self, attrs: &[Option<u32>])
        requires
            old(self).well_formed(),
        ensures
            final(self).well_formed(),
            final(self)@ == with_caps(old(self)@, attributes_noted(old(self)@.caps, attrs@)),
    {
        let caps = self.caps;
        self.note(
            Capabilities {
                sixel: caps.sixel || has_attribute(attrs, 4),
                clipboard: caps.clipboard || has_attribute(attrs, 52),
                ..caps
            },
        );
    }

    fn observe_name(&mut self, name: &String)
        requires
            old(self).well_formed(),
        ensures
            final(self).well_formed(),
            final(self)@ == (ScreenView { terminal_name: Some(name@), ..old(self)@ }),
    {
        self.terminal_name = Some(name.clone());
    }

    fn observe_position(&mut self, pos: Position)
        requires
            old(self).well_formed(),
        ensures
            final(self).well_formed(),
            final(self)@ == position_observed(old(self)@, pos),
    {
        reveal(position_observed);
        if self.origin_pending {
            self.origin = self.clip_origin(pos);
            self.origin_pending = false;
        }
    }

    pub(crate) fn observe_true_color(&mut self)
        requires
            old(self).well_formed(),
        ensures
            final(self).well_formed(),
            final(self)@ == true_color_observed(old(self)@),
    {
        let caps = self.caps;
        self.note(Capabilities { true_color: true, ..caps });
        self.set_color_profile(Profile::TrueColor);
    }

    /// Keep the whole managed area on the terminal.
    fn clip_origin(&self, pos: Position) -> (r: Position)
        ensures
            r == clipped_origin(self@, pos),
    {
        let terminal_height = match self.window_cells {
            Some(cells) => cells.height,
            None => self.height,
        };
        let lowest = terminal_height.saturating_sub(self.height);
        Position {
            x: pos.x,
            y: if pos.y < lowest {
                pos.y
            } else {
                lowest
            },
        }
    }

    /// Keep a fresh terminal size.
    pub(crate) fn cache_window_size(&mut self, ws: Winsize)
        requires
            old(self).well_formed(),
        ensures
            final(self).well_formed(),
            final(self)@ == window_size_cached(old(self)@, ws),
    {
        reveal(window_size_cached);
        let cells = Size::new(ws.col, ws.row);
        let unchanged = match self.window_cells {
            Some(known) => known == cells,
            None => false,
        };
        self.window_cells = Some(cells);
        self.cache_pixel_size(ws);
        if !unchanged {
            self.write_request_origin();
        }
    }

    fn cache_pixel_size(&mut self, ws: Winsize)
        requires
            old(self).well_formed(),
        ensures
            final(self).well_formed(),
            final(self)@ == pixel_size_cached(old(self)@, ws),
    {
        if ws.xpixel > 0 && ws.ypixel > 0 {
            self.window_pixels = Some(Size::new(ws.xpixel, ws.ypixel));
        } else if self.options.request_pixel_size_on_resize && !self.state.in_band_resize {
            append_str(&mut self.out, REQUEST_WINDOW_PIXEL_SIZE);
        }
    }

    /// Apply the discovery-driven defaults of the options.
    fn apply_defaults(&mut self)
        requires
            old(self).well_formed(),
        ensures
            final(self).well_formed(),
            final(self)@ == with_defaults(old(self)@),
    {
        self.prefer_in_band_resize();
        self.enhance_keyboard();
        if let Some(tracking) = self.options.mouse {
            self.enable_mouse(tracking);
        }
    }

    fn prefer_in_band_resize(&mut self)
        requires
            old(self).well_formed(),
        ensures
            final(self).well_formed(),
            final(self)@ == resize_preferred(old(self)@),
    {
        if self.options.prefer_in_band_resize && self.caps.in_band_resize {
            self.enable_in_band_resize();
            self.handle_resize = false;
        }
    }

    fn enhance_keyboard(&mut self)
        requires
            old(self).well_formed(),
        ensures
            final(self).well_formed(),
            final(self)@ == keyboard_enhanced(old(self)@),
    {
        let flags: KittyKeyboardFlags = self.options.keyboard_enhancements;
        if !flags.is_empty() {
            if self.caps.kitty_keyboard {
                self.set_kitty_keyboard(Some(flags));
            } else if self.caps.modify_other_keys {
                self.set_modify_other_keys(ModifyOtherKeysMode::Mode2);
            }
        }
    }

    /// Put an event behind those that wait to be read.
    pub fn queue_event(&mut self, event: Event)
        requires
            old(self).well_formed(),
        ensures
            final(self).well_formed(),
            final(self)@ == (ScreenView { queue: old(self)@.queue.push(event@), ..old(self)@ }),
    {
        self.queue.push_back(event);
        assert(events_view(self.queue@) =~= old(self)@.queue.push(event@));
    }

    /// Take the next event that waits to be read, if any. The event is not observed.
    pub fn try_read_event(&mut self) -> (r: Option<Event>)
        requires
            old(self).well_formed(),
        ensures
            final(self).well_formed(),
            match r {
                Some(event) => {
                    &&& old(self)@.queue.len() > 0
                    &&& event@ == old(self)@.queue[0]
                    &&& final(self)@ == (ScreenView {
                        queue: old(self)@.queue.drop_first(),
                        ..old(self)@
                    })
                },
                None => old(self)@.queue.len() == 0 && final(self)@ == old(self)@,
            },
    {
        let next = self.queue.pop_front();
        if next.is_some() {
            assert(events_view(self.queue@) =~= old(self)@.queue.drop_first());
        }
        next
    }

    /// Return an event to the front, to be read before those that wait.
    pub fn unread_event(&mut self, event: Event)
        requires
            old(self).well_formed(),
        ensures
            final(self).well_formed(),
            final(self)@ == (ScreenView {
                queue: seq![event@] + old(self)@.queue,
                ..old(self)@
            }),
    {
        self.queue.push_front(event);
        assert(events_view(self.queue@) =~= seq![event@] + old(self)@.queue);
    }
}

} // verus!
