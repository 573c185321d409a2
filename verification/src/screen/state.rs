//! The terminal and input modes that a screen holds, and what it has learned of the
//! terminal.
//!
//! The screen tracks its modes so that it can tear them down when it hands the
//! terminal back, and apply them again afterwards.

use crate::ansi::cursor::CursorStyle;
use crate::ansi::kitty::KittyKeyboardFlags;
use crate::color::Color;
use crate::event::key::text_view;
use crate::event::ModifyOtherKeysMode;
use crate::layout::Position;
use std::collections::BTreeMap;
use vstd::prelude::*;

verus! {

/// Optional mouse tracking features on top of basic button tracking.
#[derive(Debug, Clone, Copy, PartialEq, Eq, Hash, Structural)]
pub struct MouseTracking {
    /// Report pointer motion with no button held.
    pub motion: bool,
    /// Request pixel coordinates.
    pub pixels: bool,
}

impl MouseTracking {
    /// The set without any flag.
    #[verifier::allow_in_spec]
    pub fn empty() -> MouseTracking
        returns
            (MouseTracking { motion: false, pixels: false }),
    {
        MouseTracking { motion: false, pixels: false }
    }

    /// The set of this flag alone. Report pointer motion with no button held.
    #[verifier::allow_in_spec]
    pub fn motion() -> MouseTracking
        returns
            (MouseTracking { motion: true, pixels: false }),
    {
        MouseTracking { motion: true, pixels: false }
    }

    /// The set of this flag alone. Request pixel coordinates.
    #[verifier::allow_in_spec]
    pub fn pixels() -> MouseTracking
        returns
            (MouseTracking { motion: false, pixels: true }),
    {
        MouseTracking { motion: false, pixels: true }
    }

    /// Whether every flag of `other` is in `self`.
    #[verifier::allow_in_spec]
    pub fn contains(self, other: MouseTracking) -> bool
        returns
            ((!other.motion || self.motion) && (!other.pixels || self.pixels)),
    {
        (!other.motion || self.motion) && (!other.pixels || self.pixels)
    }

    /// Whether no flag is in the set.
    #[verifier::allow_in_spec]
    pub fn is_empty(self) -> bool
        returns
            (!self.motion && !self.pixels),
    {
        !self.motion && !self.pixels
    }

    /// The flags of either set.
    #[verifier::allow_in_spec]
    pub fn union(self, other: MouseTracking) -> MouseTracking
        returns
            (MouseTracking {
                motion: self.motion || other.motion,
                pixels: self.pixels || other.pixels,
            }),
    {
        MouseTracking { motion: self.motion || other.motion, pixels: self.pixels || other.pixels }
    }
}

impl std::ops::BitOr for MouseTracking {
    type Output = MouseTracking;

    fn bitor(self, rhs: MouseTracking) -> (r: MouseTracking) {
        self.union(rhs)
    }
}

impl vstd::std_specs::ops::BitOrSpecImpl for MouseTracking {
    open spec fn obeys_bitor_spec() -> bool {
        true
    }

    open spec fn bitor_req(self, rhs: MouseTracking) -> bool {
        true
    }

    open spec fn bitor_spec(self, rhs: MouseTracking) -> MouseTracking {
        self.union(rhs)
    }
}

/// Tracked mode state for save and restore.
#[derive(Debug)]
pub struct State {
    /// Cursor style.
    pub cursor_style: CursorStyle,
    /// Requested mouse tracking, or `None` when mouse tracking is disabled.
    pub mouse: Option<MouseTracking>,
    /// Bracketed paste mode.
    pub bracketed_paste: bool,
    /// Focus in/out reporting (mode 1004).
    pub focus_events: bool,
    /// Color-scheme update notifications (mode 2031).
    pub color_scheme_updates: bool,
    /// Terminal visibility reports (mode 2033).
    pub visibility_reports: bool,
    /// In-band resize notifications (mode 2048).
    pub in_band_resize: bool,
    /// Window title override.
    pub window_title: Option<String>,
    /// Icon name override.
    pub icon_name: Option<String>,
    /// Default foreground color override.
    pub foreground_color: Option<Color>,
    /// Default background color override.
    pub background_color: Option<Color>,
    /// Cursor color override.
    pub cursor_color: Option<Color>,
    /// Palette overrides by index.
    pub palette: BTreeMap<u8, Color>,
    /// Active xterm modifyOtherKeys mode.
    pub modify_other_keys: ModifyOtherKeysMode,
    /// Pointer shape override.
    pub pointer_shape: Option<String>,
    /// Whether the alternate screen is active.
    pub alt_screen: bool,
    /// Cursor visibility.
    pub cursor_visible: bool,
    /// Whether each frame is wrapped in synchronized-output sequences.
    pub sync_updates: bool,
    /// Unicode core / grapheme cluster mode (mode 2027).
    pub grapheme_clusters: bool,
    /// Active Kitty keyboard enhancement flags.
    pub kitty_keyboard: KittyKeyboardFlags,
    /// Where every frame leaves the cursor, if anywhere in particular.
    pub desired_cursor: Option<Position>,
}

/// A [`State`] with its texts as sequences and its palette as a map.
pub struct StateView {
    pub cursor_style: CursorStyle,
    pub mouse: Option<MouseTracking>,
    pub bracketed_paste: bool,
    pub focus_events: bool,
    pub color_scheme_updates: bool,
    pub visibility_reports: bool,
    pub in_band_resize: bool,
    pub window_title: Option<Seq<char>>,
    pub icon_name: Option<Seq<char>>,
    pub foreground_color: Option<Color>,
    pub background_color: Option<Color>,
    pub cursor_color: Option<Color>,
    pub palette: Map<u8, Color>,
    pub modify_other_keys: ModifyOtherKeysMode,
    pub pointer_shape: Option<Seq<char>>,
    pub alt_screen: bool,
    pub cursor_visible: bool,
    pub sync_updates: bool,
    pub grapheme_clusters: bool,
    pub kitty_keyboard: KittyKeyboardFlags,
    pub desired_cursor: Option<Position>,
}

impl View for State {
    type V = StateView;

    open spec fn view(&self) -> StateView {
        StateView {
            cursor_style: self.cursor_style,
            mouse: self.mouse,
            bracketed_paste: self.bracketed_paste,
            focus_events: self.focus_events,
            color_scheme_updates: self.color_scheme_updates,
            visibility_reports: self.visibility_reports,
            in_band_resize: self.in_band_resize,
            window_title: text_view(self.window_title),
            icon_name: text_view(self.icon_name),
            foreground_color: self.foreground_color,
            background_color: self.background_color,
            cursor_color: self.cursor_color,
            palette: self.palette@,
            modify_other_keys: self.modify_other_keys,
            pointer_shape: text_view(self.pointer_shape),
            alt_screen: self.alt_screen,
            cursor_visible: self.cursor_visible,
            sync_updates: self.sync_updates,
            grapheme_clusters: self.grapheme_clusters,
            kitty_keyboard: self.kitty_keyboard,
            desired_cursor: self.desired_cursor,
        }
    }
}

/// No mode held: the terminal as a shell leaves it.
pub open spec fn no_modes() -> StateView {
    StateView {
        cursor_style: CursorStyle::Default,
        mouse: None,
        bracketed_paste: false,
        focus_events: false,
        color_scheme_updates: false,
        visibility_reports: false,
        in_band_resize: false,
        window_title: None,
        icon_name: None,
        foreground_color: None,
        background_color: None,
        cursor_color: None,
        palette: Map::empty(),
        modify_other_keys: ModifyOtherKeysMode::Disabled,
        pointer_shape: None,
        alt_screen: false,
        cursor_visible: true,
        sync_updates: false,
        grapheme_clusters: false,
        kitty_keyboard: KittyKeyboardFlags::empty(),
        desired_cursor: None,
    }
}

impl Default for State {
    fn default() -> (r: Self)
        ensures
            r@ == no_modes(),
    {
        State {
            cursor_style: CursorStyle::Default,
            mouse: None,
            bracketed_paste: false,
            focus_events: false,
            color_scheme_updates: false,
            visibility_reports: false,
            in_band_resize: false,
            window_title: None,
            icon_name: None,
            foreground_color: None,
            background_color: None,
            cursor_color: None,
            palette: BTreeMap::new(),
            modify_other_keys: ModifyOtherKeysMode::Disabled,
            pointer_shape: None,
            alt_screen: false,
            cursor_visible: true,
            sync_updates: false,
            grapheme_clusters: false,
            kitty_keyboard: KittyKeyboardFlags::empty(),
            desired_cursor: None,
        }
    }
}

/// What the replies to the capability queries have shown the terminal to support.
#[derive(Debug, Clone, Copy, PartialEq, Eq, Structural)]
pub struct Capabilities {
    /// Synchronized output (mode 2026).
    pub synchronized_output: bool,
    /// Unicode core / grapheme-cluster mode (mode 2027).
    pub grapheme_clusters: bool,
    /// In-band resize notifications (mode 2048).
    pub in_band_resize: bool,
    /// Terminal visibility reports (mode 2033).
    pub visibility_reports: bool,
    /// Normal mouse button tracking (mode 1000).
    pub mouse_normal: bool,
    /// Button-event mouse tracking (mode 1002).
    pub mouse_button: bool,
    /// Any-event mouse tracking (mode 1003).
    pub mouse_any: bool,
    /// SGR mouse encoding (mode 1006).
    pub mouse_sgr: bool,
    /// SGR-pixel mouse encoding (mode 1016).
    pub mouse_sgr_pixel: bool,
    /// Sixel graphics (Primary DA attribute 4).
    pub sixel: bool,
    /// Clipboard access (Primary DA attribute 52).
    pub clipboard: bool,
    /// Kitty keyboard protocol.
    pub kitty_keyboard: bool,
    /// xterm modifyOtherKeys.
    pub modify_other_keys: bool,
    /// Direct (24-bit) color.
    pub true_color: bool,
}

impl Capabilities {
    /// Nothing known to be supported.
    pub open spec fn nothing() -> Capabilities {
        Capabilities {
            synchronized_output: false,
            grapheme_clusters: false,
            in_band_resize: false,
            visibility_reports: false,
            mouse_normal: false,
            mouse_button: false,
            mouse_any: false,
            mouse_sgr: false,
            mouse_sgr_pixel: false,
            sixel: false,
            clipboard: false,
            kitty_keyboard: false,
            modify_other_keys: false,
            true_color: false,
        }
    }

    /// Whether everything that `self` supports, `other` supports.
    #[verifier::opaque]
    pub open spec fn within(self, other: Capabilities) -> bool {
        &&& self.synchronized_output ==> other.synchronized_output
        &&& self.grapheme_clusters ==> other.grapheme_clusters
        &&& self.in_band_resize ==> other.in_band_resize
        &&& self.visibility_reports ==> other.visibility_reports
        &&& self.mouse_normal ==> other.mouse_normal
        &&& self.mouse_button ==> other.mouse_button
        &&& self.mouse_any ==> other.mouse_any
        &&& self.mouse_sgr ==> other.mouse_sgr
        &&& self.mouse_sgr_pixel ==> other.mouse_sgr_pixel
        &&& self.sixel ==> other.sixel
        &&& self.clipboard ==> other.clipboard
        &&& self.kitty_keyboard ==> other.kitty_keyboard
        &&& self.modify_other_keys ==> other.modify_other_keys
        &&& self.true_color ==> other.true_color
    }
}

impl Default for Capabilities {
    fn default() -> (r: Self)
        ensures
            r == Capabilities::nothing(),
    {
        Capabilities {
            synchronized_output: false,
            grapheme_clusters: false,
            in_band_resize: false,
            visibility_reports: false,
            mouse_normal: false,
            mouse_button: false,
            mouse_any: false,
            mouse_sgr: false,
            mouse_sgr_pixel: false,
            sixel: false,
            clipboard: false,
            kitty_keyboard: false,
            modify_other_keys: false,
            true_color: false,
        }
    }
}

} // verus!
