//! Terminal events.
//!
//! [`Event`] is what the decoder makes of terminal input; [`EventView`] is the
//! same value with byte strings and texts as mathematical sequences, and is what
//! the contracts of this crate speak of.

pub mod decode;
pub mod key;
pub mod mouse;

pub use decode::{Decoder, DecoderFlags};
pub use key::{Key, KeyCode, KeyModifiers};
pub use mouse::{Mouse, MouseButton};

use crate::ansi::kitty::KittyKeyboardFlags;
use crate::ansi::mode::{Mode, ModeSetting};
use crate::color::Color;
use crate::event::key::KeyView;
use crate::layout::{Position, Winsize};
use vstd::prelude::*;
use vstd::slice::slice_to_vec;

verus! {

/// Which system clipboard selection an OSC 52 event refers to.
#[derive(Debug, Clone, Copy, PartialEq, Eq, Hash, Structural)]
pub enum ClipboardSelection {
    /// `c`: system clipboard.
    System,
    /// `p`: primary (X11 PRIMARY) selection.
    Primary,
    /// Any other selection character.
    Other(char),
}

/// Decoded modifyOtherKeys mode (`CSI > 4 ; n m`).
#[derive(Debug, Clone, Copy, PartialEq, Eq, Hash, Structural)]
pub enum ModifyOtherKeysMode {
    /// Disabled.
    Disabled,
    /// Mode 1: only modify keys that don't otherwise have an xterm sequence.
    Mode1,
    /// Mode 2: modify all keys.
    Mode2,
}

impl ModifyOtherKeysMode {
    /// Convert a report value into a modifyOtherKeys mode.
    #[verifier::allow_in_spec]
    pub fn from_value(v: u8) -> Self
        returns
            (if v == 1 {
                ModifyOtherKeysMode::Mode1
            } else if v == 2 {
                ModifyOtherKeysMode::Mode2
            } else {
                ModifyOtherKeysMode::Disabled
            }),
    {
        match v {
            1 => ModifyOtherKeysMode::Mode1,
            2 => ModifyOtherKeysMode::Mode2,
            _ => ModifyOtherKeysMode::Disabled,
        }
    }
}

/// Reported terminal color scheme (DEC mode 2031).
#[derive(Debug, Clone, Copy, PartialEq, Eq, Hash, Structural)]
pub enum ColorScheme {
    /// Dark mode (`CSI ? 997 ; 1 n`).
    Dark,
    /// Light mode (`CSI ? 997 ; 2 n`).
    Light,
}

impl ColorScheme {
    /// Human-readable label of the scheme.
    pub fn label(self) -> (r: String)
        ensures
            r@ == (match self {
                ColorScheme::Dark => "dark"@,
                ColorScheme::Light => "light"@,
            }),
    {
        match self {
            ColorScheme::Dark => "dark".to_owned(),
            ColorScheme::Light => "light".to_owned(),
        }
    }
}

/// Reported terminal visibility (DEC mode 2033).
///
/// This is an advisory, deliberately conservative hint.
/// [`Hidden`](Visibility::Hidden) is precise: the terminal has positive knowledge
/// that the view is not observable. [`Visible`](Visibility::Visible) only means
/// that it may be observable.
#[derive(Debug, Clone, Copy, PartialEq, Eq, Hash, Structural)]
pub enum Visibility {
    /// Potentially visible (`CSI ? 999 ; 1 n`).
    Visible,
    /// Not visible (`CSI ? 999 ; 2 n`).
    Hidden,
}

impl Visibility {
    /// Whether the terminal view may be observable, so visual work is worth
    /// doing.
    pub fn is_visible(self) -> (r: bool)
        ensures
            r == (self is Visible),
    {
        matches!(self, Visibility::Visible)
    }

    /// Human-readable label of the visibility.
    pub fn label(self) -> (r: String)
        ensures
            r@ == (match self {
                Visibility::Visible => "visible"@,
                Visibility::Hidden => "hidden"@,
            }),
    {
        match self {
            Visibility::Visible => "visible".to_owned(),
            Visibility::Hidden => "hidden".to_owned(),
        }
    }
}

/// A terminal event.
#[derive(Debug, PartialEq, Eq)]
#[allow(inconsistent_fields)]
pub enum Event {
    /// Key was pressed.
    KeyPress(Key),
    /// Key auto-repeated (Kitty keyboard protocol).
    KeyRepeat(Key),
    /// Key was released (Kitty keyboard protocol).
    KeyRelease(Key),
    /// Mouse button was pressed.
    MouseClick(Mouse),
    /// Mouse button was released.
    MouseRelease(Mouse),
    /// Mouse wheel scrolled.
    MouseWheel(Mouse),
    /// Mouse moved (with or without a button held).
    MouseMove(Mouse),
    /// The terminal surface changed size.
    Resize(Winsize),
    /// Reply to a `CSI 18 t` query: window size in cells.
    WindowCellSize {
        /// Width in terminal cells.
        width: u16,
        /// Height in terminal cells.
        height: u16,
    },
    /// Reply to a `CSI 14 t` query: window size in pixels.
    WindowPixelSize {
        /// Width in pixels.
        width: u16,
        /// Height in pixels.
        height: u16,
    },
    /// Reply to a `CSI 16 t` query: single-cell size in pixels.
    CellPixelSize {
        /// Cell width in pixels.
        width: u16,
        /// Cell height in pixels.
        height: u16,
    },
    /// Focus gained.
    FocusIn,
    /// Focus lost.
    FocusOut,
    /// Bracketed paste started.
    PasteStart,
    /// Bracketed paste ended.
    PasteEnd,
    /// Pasted bytes, between [`Event::PasteStart`] and [`Event::PasteEnd`]. A
    /// paste may arrive in several chunks.
    PasteChunk(Vec<u8>),
    /// Cursor position report (CPR), zero-based.
    CursorPosition(Position),
    /// Primary device attributes (DA1).
    PrimaryDeviceAttributes(Vec<Option<u32>>),
    /// Secondary device attributes (DA2).
    SecondaryDeviceAttributes(Vec<Option<u32>>),
    /// Tertiary device attributes (DA3): terminal ID string.
    TertiaryDeviceAttributes(String),
    /// Terminal name reply (XTVERSION).
    TerminalName(String),
    /// Mode report (DECRPM or its ANSI form).
    ModeReport {
        /// Reported mode.
        mode: Mode,
        /// Current mode setting.
        setting: ModeSetting,
    },
    /// modifyOtherKeys report.
    ModifyOtherKeys(ModifyOtherKeysMode),
    /// Kitty keyboard protocol active-enhancements report (`CSI ? <flags> u`).
    KittyKeyboardEnhancements(KittyKeyboardFlags),
    /// XTWINOPS reply (window operation).
    WindowOp {
        /// Window operation number.
        op: u32,
        /// Window operation arguments.
        args: Vec<Option<u32>>,
    },
    /// XTGETTCAP / termcap capability reply.
    Termcap {
        /// Whether the requested capability was recognized.
        recognized: bool,
        /// Decoded capability payload.
        payload: String,
    },
    /// OSC 10 default foreground color reply.
    ForegroundColor(Color),
    /// OSC 11 default background color reply.
    BackgroundColor(Color),
    /// OSC 12 cursor color reply.
    CursorColor(Color),
    /// OSC 4 indexed palette color reply.
    PaletteColor {
        /// Palette color index.
        index: u8,
        /// Reported palette color.
        color: Color,
    },
    /// Color-scheme report (DEC mode 2031).
    ColorScheme(ColorScheme),
    /// Terminal visibility report (DEC mode 2033).
    Visibility(Visibility),
    /// OSC 52 clipboard content reply.
    Clipboard {
        /// Clipboard selection that was reported.
        selection: ClipboardSelection,
        /// Clipboard content.
        content: String,
    },
    /// Kitty graphics response (APC `G ...` payload).
    KittyGraphics {
        /// Response options.
        options: Vec<(String, String)>,
        /// Response payload bytes.
        payload: Vec<u8>,
    },
    /// Multiple events emitted by a single sequence.
    Multi(Vec<Event>),
    /// Unknown CSI sequence (parameters, intermediates and final byte).
    UnknownCsi(Vec<u8>),
    /// Unknown SS3 sequence (with its introducer).
    UnknownSs3(Vec<u8>),
    /// Unknown OSC sequence (payload bytes).
    UnknownOsc(Vec<u8>),
    /// Unknown DCS sequence (payload).
    UnknownDcs(Vec<u8>),
    /// Unknown SOS sequence (payload).
    UnknownSos(Vec<u8>),
    /// Unknown PM sequence (payload).
    UnknownPm(Vec<u8>),
    /// Unknown APC sequence (payload).
    UnknownApc(Vec<u8>),
    /// Catch-all for unrecognized byte sequences.
    Unknown(Vec<u8>),
}

/// An [`Event`] with its byte strings and texts as sequences.
#[verifier::ext_equal]
#[allow(inconsistent_fields)]
pub enum EventView {
    KeyPress(KeyView),
    KeyRepeat(KeyView),
    KeyRelease(KeyView),
    MouseClick(Mouse),
    MouseRelease(Mouse),
    MouseWheel(Mouse),
    MouseMove(Mouse),
    Resize(Winsize),
    WindowCellSize { width: u16, height: u16 },
    WindowPixelSize { width: u16, height: u16 },
    CellPixelSize { width: u16, height: u16 },
    FocusIn,
    FocusOut,
    PasteStart,
    PasteEnd,
    PasteChunk(Seq<u8>),
    CursorPosition(Position),
    PrimaryDeviceAttributes(Seq<Option<u32>>),
    SecondaryDeviceAttributes(Seq<Option<u32>>),
    TertiaryDeviceAttributes(Seq<char>),
    TerminalName(Seq<char>),
    ModeReport { mode: Mode, setting: ModeSetting },
    ModifyOtherKeys(ModifyOtherKeysMode),
    KittyKeyboardEnhancements(KittyKeyboardFlags),
    WindowOp { op: u32, args: Seq<Option<u32>> },
    Termcap { recognized: bool, payload: Seq<char> },
    ForegroundColor(Color),
    BackgroundColor(Color),
    CursorColor(Color),
    PaletteColor { index: u8, color: Color },
    ColorScheme(ColorScheme),
    Visibility(Visibility),
    Clipboard { selection: ClipboardSelection, content: Seq<char> },
    KittyGraphics { options: Seq<(Seq<char>, Seq<char>)>, payload: Seq<u8> },
    Multi(Seq<EventView>),
    UnknownCsi(Seq<u8>),
    UnknownSs3(Seq<u8>),
    UnknownOsc(Seq<u8>),
    UnknownDcs(Seq<u8>),
    UnknownSos(Seq<u8>),
    UnknownPm(Seq<u8>),
    UnknownApc(Seq<u8>),
    Unknown(Seq<u8>),
}

/// The texts of a list of option pairs.
pub open spec fn options_view(options: Seq<(String, String)>) -> Seq<(Seq<char>, Seq<char>)> {
    Seq::new(options.len(), |i: int| (options[i].0@, options[i].1@))
}

/// The views of a list of events.
pub open spec fn events_view(events: Seq<Event>) -> Seq<EventView> {
    Seq::new(events.len(), |i: int| events[i]@)
}

impl View for Event {
    type V = EventView;

    open spec fn view(&self) -> EventView
        decreases self,
    {
        match self {
            Event::KeyPress(k) => EventView::KeyPress(k@),
            Event::KeyRepeat(k) => EventView::KeyRepeat(k@),
            Event::KeyRelease(k) => EventView::KeyRelease(k@),
            Event::MouseClick(m) => EventView::MouseClick(*m),
            Event::MouseRelease(m) => EventView::MouseRelease(*m),
            Event::MouseWheel(m) => EventView::MouseWheel(*m),
            Event::MouseMove(m) => EventView::MouseMove(*m),
            Event::Resize(ws) => EventView::Resize(*ws),
            Event::WindowCellSize { width, height } => EventView::WindowCellSize {
                width: *width,
                height: *height,
            },
            Event::WindowPixelSize { width, height } => EventView::WindowPixelSize {
                width: *width,
                height: *height,
            },
            Event::CellPixelSize { width, height } => EventView::CellPixelSize {
                width: *width,
                height: *height,
            },
            Event::FocusIn => EventView::FocusIn,
            Event::FocusOut => EventView::FocusOut,
            Event::PasteStart => EventView::PasteStart,
            Event::PasteEnd => EventView::PasteEnd,
            Event::PasteChunk(b) => EventView::PasteChunk(b@),
            Event::CursorPosition(p) => EventView::CursorPosition(*p),
            Event::PrimaryDeviceAttributes(a) => EventView::PrimaryDeviceAttributes(a@),
            Event::SecondaryDeviceAttributes(a) => EventView::SecondaryDeviceAttributes(a@),
            Event::TertiaryDeviceAttributes(s) => EventView::TertiaryDeviceAttributes(s@),
            Event::TerminalName(s) => EventView::TerminalName(s@),
            Event::ModeReport { mode, setting } => EventView::ModeReport {
                mode: *mode,
                setting: *setting,
            },
            Event::ModifyOtherKeys(m) => EventView::ModifyOtherKeys(*m),
            Event::KittyKeyboardEnhancements(f) => EventView::KittyKeyboardEnhancements(*f),
            Event::WindowOp { op, args } => EventView::WindowOp { op: *op, args: args@ },
            Event::Termcap { recognized, payload } => EventView::Termcap {
                recognized: *recognized,
                payload: payload@,
            },
            Event::ForegroundColor(c) => EventView::ForegroundColor(*c),
            Event::BackgroundColor(c) => EventView::BackgroundColor(*c),
            Event::CursorColor(c) => EventView::CursorColor(*c),
            Event::PaletteColor { index, color } => EventView::PaletteColor {
                index: *index,
                color: *color,
            },
            Event::ColorScheme(s) => EventView::ColorScheme(*s),
            Event::Visibility(v) => EventView::Visibility(*v),
            Event::Clipboard { selection, content } => EventView::Clipboard {
                selection: *selection,
                content: content@,
            },
            Event::KittyGraphics { options, payload } => EventView::KittyGraphics {
                options: options_view(options@),
                payload: payload@,
            },
            Event::Multi(events) => EventView::Multi(
                Seq::new(
                    events@.len(),
                    |i: int|
                        if 0 <= i < events@.len() {
                            events@[i].view()
                        } else {
                            EventView::FocusIn
                        },
                ),
            ),
            Event::UnknownCsi(b) => EventView::UnknownCsi(b@),
            Event::UnknownSs3(b) => EventView::UnknownSs3(b@),
            Event::UnknownOsc(b) => EventView::UnknownOsc(b@),
            Event::UnknownDcs(b) => EventView::UnknownDcs(b@),
            Event::UnknownSos(b) => EventView::UnknownSos(b@),
            Event::UnknownPm(b) => EventView::UnknownPm(b@),
            Event::UnknownApc(b) => EventView::UnknownApc(b@),
            Event::Unknown(b) => EventView::Unknown(b@),
        }
    }
}

/// A copy of a list of option pairs.
fn duplicate_options(options: &Vec<(String, String)>) -> (r: Vec<(String, String)>)
    ensures
        options_view(r@) == options_view(options@),
{
    let mut r: Vec<(String, String)> = Vec::new();
    let mut i: usize = 0;
    while i < options.len()
        invariant
            i <= options@.len(),
            r@.len() == i,
            forall|k: int| 0 <= k < i ==> (#[trigger] r@[k]).0@ == options@[k].0@ && r@[k].1@
                == options@[k].1@,
        decreases options@.len() - i,
    {
        r.push((options[i].0.clone(), options[i].1.clone()));
        i += 1;
    }
    assert(options_view(r@) =~= options_view(options@));
    r
}

impl Event {
    /// A copy of the event.
    fn duplicate(&self) -> (r: Event)
        ensures
            r@ == self@,
        decreases self,
    {
        match self {
            Event::KeyPress(k) => Event::KeyPress(k.clone()),
            Event::KeyRepeat(k) => Event::KeyRepeat(k.clone()),
            Event::KeyRelease(k) => Event::KeyRelease(k.clone()),
            Event::MouseClick(m) => Event::MouseClick(*m),
            Event::MouseRelease(m) => Event::MouseRelease(*m),
            Event::MouseWheel(m) => Event::MouseWheel(*m),
            Event::MouseMove(m) => Event::MouseMove(*m),
            Event::Resize(ws) => Event::Resize(*ws),
            Event::WindowCellSize { width, height } => Event::WindowCellSize {
                width: *width,
                height: *height,
            },
            Event::WindowPixelSize { width, height } => Event::WindowPixelSize {
                width: *width,
                height: *height,
            },
            Event::CellPixelSize { width, height } => Event::CellPixelSize {
                width: *width,
                height: *height,
            },
            Event::FocusIn => Event::FocusIn,
            Event::FocusOut => Event::FocusOut,
            Event::PasteStart => Event::PasteStart,
            Event::PasteEnd => Event::PasteEnd,
            Event::PasteChunk(b) => Event::PasteChunk(slice_to_vec(b.as_slice())),
            Event::CursorPosition(p) => Event::CursorPosition(*p),
            Event::PrimaryDeviceAttributes(a) => Event::PrimaryDeviceAttributes(
                slice_to_vec(a.as_slice()),
            ),
            Event::SecondaryDeviceAttributes(a) => Event::SecondaryDeviceAttributes(
                slice_to_vec(a.as_slice()),
            ),
            Event::TertiaryDeviceAttributes(s) => Event::TertiaryDeviceAttributes(s.clone()),
            Event::TerminalName(s) => Event::TerminalName(s.clone()),
            Event::ModeReport { mode, setting } => Event::ModeReport {
                mode: *mode,
                setting: *setting,
            },
            Event::ModifyOtherKeys(m) => Event::ModifyOtherKeys(*m),
            Event::KittyKeyboardEnhancements(f) => Event::KittyKeyboardEnhancements(*f),
            Event::WindowOp { op, args } => Event::WindowOp {
                op: *op,
                args: slice_to_vec(args.as_slice()),
            },
            Event::Termcap { recognized, payload } => Event::Termcap {
                recognized: *recognized,
                payload: payload.clone(),
            },
            Event::ForegroundColor(c) => Event::ForegroundColor(*c),
            Event::BackgroundColor(c) => Event::BackgroundColor(*c),
            Event::CursorColor(c) => Event::CursorColor(*c),
            Event::PaletteColor { index, color } => Event::PaletteColor {
                index: *index,
                color: *color,
            },
            Event::ColorScheme(s) => Event::ColorScheme(*s),
            Event::Visibility(v) => Event::Visibility(*v),
            Event::Clipboard { selection, content } => Event::Clipboard {
                selection: *selection,
                content: content.clone(),
            },
            Event::KittyGraphics { options, payload } => Event::KittyGraphics {
                options: duplicate_options(options),
                payload: slice_to_vec(payload.as_slice()),
            },
            Event::Multi(events) => {
                let mut copies: Vec<Event> = Vec::new();
                let mut i: usize = 0;
                while i < events.len()
                    invariant
                        *self == Event::Multi(*events),
                        i <= events@.len(),
                        copies@.len() == i,
                        forall|k: int| 0 <= k < i ==> (#[trigger] copies@[k])@ == events@[k]@,
                    decreases events@.len() - i,
                {
                    assert(decreases_to!(*self => self->Multi_0));
                    assert(decreases_to!(self->Multi_0 => self->Multi_0@));
                    assert(decreases_to!(self->Multi_0@ => self->Multi_0@[i as int]));
                    let copy = events[i].duplicate();
                    copies.push(copy);
                    i += 1;
                }
                proof {
                    lemma_multi_view(copies);
                    lemma_multi_view(*events);
                    assert(events_view(copies@) =~= events_view(events@));
                }
                Event::Multi(copies)
            },
            Event::UnknownCsi(b) => Event::UnknownCsi(slice_to_vec(b.as_slice())),
            Event::UnknownSs3(b) => Event::UnknownSs3(slice_to_vec(b.as_slice())),
            Event::UnknownOsc(b) => Event::UnknownOsc(slice_to_vec(b.as_slice())),
            Event::UnknownDcs(b) => Event::UnknownDcs(slice_to_vec(b.as_slice())),
            Event::UnknownSos(b) => Event::UnknownSos(slice_to_vec(b.as_slice())),
            Event::UnknownPm(b) => Event::UnknownPm(slice_to_vec(b.as_slice())),
            Event::UnknownApc(b) => Event::UnknownApc(slice_to_vec(b.as_slice())),
            Event::Unknown(b) => Event::Unknown(slice_to_vec(b.as_slice())),
        }
    }
}

impl Clone for Event {
    fn clone(&self) -> (r: Self)
        ensures
            r@ == self@,
    {
        self.duplicate()
    }
}

/// The view of a group is the group of the views.
pub proof fn lemma_multi_view(events: Vec<Event>)
    ensures
        Event::Multi(events)@ == EventView::Multi(events_view(events@)),
{
    let group = Event::Multi(events);
    assert(group@ is Multi);
    assert forall|i: int| 0 <= i < events@.len() implies group@->Multi_0[i] == events_view(
        events@,
    )[i] by {
        reveal_with_fuel(<Event as View>::view, 2);
    }
    assert(group@->Multi_0 =~= events_view(events@));
}

/// The key of a key event.
pub open spec fn key_of_event(e: EventView) -> Option<KeyView> {
    match e {
        EventView::KeyPress(k) => Some(k),
        EventView::KeyRepeat(k) => Some(k),
        EventView::KeyRelease(k) => Some(k),
        _ => None,
    }
}

/// The mouse of a mouse event.
pub open spec fn mouse_of_event(e: EventView) -> Option<Mouse> {
    match e {
        EventView::MouseClick(m) => Some(m),
        EventView::MouseRelease(m) => Some(m),
        EventView::MouseWheel(m) => Some(m),
        EventView::MouseMove(m) => Some(m),
        _ => None,
    }
}

impl Event {
    /// Borrow the [`Key`] payload if this is any key event.
    pub fn as_key(&self) -> (r: Option<&Key>)
        ensures
            r is Some == key_of_event(self@) is Some,
            r is Some ==> r->0@ == key_of_event(self@)->0,
    {
        match self {
            Event::KeyPress(k) => Some(k),
            Event::KeyRepeat(k) => Some(k),
            Event::KeyRelease(k) => Some(k),
            _ => None,
        }
    }

    /// Borrow the [`Mouse`] payload if this is any mouse event.
    pub fn as_mouse(&self) -> (r: Option<&Mouse>)
        ensures
            r is Some == mouse_of_event(self@) is Some,
            r is Some ==> *r->0 == mouse_of_event(self@)->0,
    {
        match self {
            Event::MouseClick(m) => Some(m),
            Event::MouseRelease(m) => Some(m),
            Event::MouseWheel(m) => Some(m),
            Event::MouseMove(m) => Some(m),
            _ => None,
        }
    }
}

} // verus!
