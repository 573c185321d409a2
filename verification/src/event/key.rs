//! Keys: codes, modifiers, and the canonical form of a key press.
//!
//! A key's identity is its code and its modifiers: those are what `==` and the
//! hash of a [`Key`] look at. The text it produced and its alternate key values
//! are informational.

use vstd::prelude::*;
use vstd::string::*;

verus! {

/// Modifier and lock keys held during an event.
#[derive(Debug, Clone, Copy, PartialEq, Eq, Hash, Structural)]
pub struct KeyModifiers {
    /// Shift.
    pub shift: bool,
    /// Alt.
    pub alt: bool,
    /// Control.
    pub ctrl: bool,
    /// Super.
    pub super_key: bool,
    /// Hyper.
    pub hyper: bool,
    /// Meta.
    pub meta: bool,
    /// Caps Lock is on.
    pub caps_lock: bool,
    /// Num Lock is on.
    pub num_lock: bool,
    /// Scroll Lock is on.
    pub scroll_lock: bool,
}

impl KeyModifiers {
    /// The set without any flag.
    #[verifier::allow_in_spec]
    pub fn empty() -> KeyModifiers
        returns
            (KeyModifiers {
                shift: false,
                alt: false,
                ctrl: false,
                super_key: false,
                hyper: false,
                meta: false,
                caps_lock: false,
                num_lock: false,
                scroll_lock: false,
            }),
    {
        KeyModifiers {
            shift: false,
            alt: false,
            ctrl: false,
            super_key: false,
            hyper: false,
            meta: false,
            caps_lock: false,
            num_lock: false,
            scroll_lock: false,
        }
    }

    /// The set of this flag alone. Shift.
    #[verifier::allow_in_spec]
    pub fn shift() -> KeyModifiers
        returns
            (KeyModifiers { shift: true, ..KeyModifiers::empty() }),
    {
        KeyModifiers { shift: true, ..KeyModifiers::empty() }
    }

    /// The set of this flag alone. Alt.
    #[verifier::allow_in_spec]
    pub fn alt() -> KeyModifiers
        returns
            (KeyModifiers { alt: true, ..KeyModifiers::empty() }),
    {
        KeyModifiers { alt: true, ..KeyModifiers::empty() }
    }

    /// The set of this flag alone. Control.
    #[verifier::allow_in_spec]
    pub fn ctrl() -> KeyModifiers
        returns
            (KeyModifiers { ctrl: true, ..KeyModifiers::empty() }),
    {
        KeyModifiers { ctrl: true, ..KeyModifiers::empty() }
    }

    /// The set of this flag alone. Super.
    #[verifier::allow_in_spec]
    pub fn super_key() -> KeyModifiers
        returns
            (KeyModifiers { super_key: true, ..KeyModifiers::empty() }),
    {
        KeyModifiers { super_key: true, ..KeyModifiers::empty() }
    }

    /// The set of this flag alone. Hyper.
    #[verifier::allow_in_spec]
    pub fn hyper() -> KeyModifiers
        returns
            (KeyModifiers { hyper: true, ..KeyModifiers::empty() }),
    {
        KeyModifiers { hyper: true, ..KeyModifiers::empty() }
    }

    /// The set of this flag alone. Meta.
    #[verifier::allow_in_spec]
    pub fn meta() -> KeyModifiers
        returns
            (KeyModifiers { meta: true, ..KeyModifiers::empty() }),
    {
        KeyModifiers { meta: true, ..KeyModifiers::empty() }
    }

    /// The set of this flag alone. Caps Lock is on.
    #[verifier::allow_in_spec]
    pub fn caps_lock() -> KeyModifiers
        returns
            (KeyModifiers { caps_lock: true, ..KeyModifiers::empty() }),
    {
        KeyModifiers { caps_lock: true, ..KeyModifiers::empty() }
    }

    /// The set of this flag alone. Num Lock is on.
    #[verifier::allow_in_spec]
    pub fn num_lock() -> KeyModifiers
        returns
            (KeyModifiers { num_lock: true, ..KeyModifiers::empty() }),
    {
        KeyModifiers { num_lock: true, ..KeyModifiers::empty() }
    }

    /// The set of this flag alone. Scroll Lock is on.
    #[verifier::allow_in_spec]
    pub fn scroll_lock() -> KeyModifiers
        returns
            (KeyModifiers { scroll_lock: true, ..KeyModifiers::empty() }),
    {
        KeyModifiers { scroll_lock: true, ..KeyModifiers::empty() }
    }

    /// Whether every flag of `other` is in `self`.
    #[verifier::allow_in_spec]
    pub fn contains(self, other: KeyModifiers) -> bool
        returns
            ((!other.shift || self.shift)
                && (!other.alt || self.alt)
                && (!other.ctrl || self.ctrl)
                && (!other.super_key || self.super_key)
                && (!other.hyper || self.hyper)
                && (!other.meta || self.meta)
                && (!other.caps_lock || self.caps_lock)
                && (!other.num_lock || self.num_lock)
                && (!other.scroll_lock || self.scroll_lock)),
    {
        (!other.shift || self.shift)
            && (!other.alt || self.alt)
            && (!other.ctrl || self.ctrl)
            && (!other.super_key || self.super_key)
            && (!other.hyper || self.hyper)
            && (!other.meta || self.meta)
            && (!other.caps_lock || self.caps_lock)
            && (!other.num_lock || self.num_lock)
            && (!other.scroll_lock || self.scroll_lock)
    }

    /// Whether no flag is in the set.
    #[verifier::allow_in_spec]
    pub fn is_empty(self) -> bool
        returns
            (!self.shift
                && !self.alt
                && !self.ctrl
                && !self.super_key
                && !self.hyper
                && !self.meta
                && !self.caps_lock
                && !self.num_lock
                && !self.scroll_lock),
    {
        !self.shift
            && !self.alt
            && !self.ctrl
            && !self.super_key
            && !self.hyper
            && !self.meta
            && !self.caps_lock
            && !self.num_lock
            && !self.scroll_lock
    }

    /// The flags of either set.
    #[verifier::allow_in_spec]
    pub fn union(self, other: KeyModifiers) -> KeyModifiers
        returns
            (KeyModifiers {
                shift: self.shift || other.shift,
                alt: self.alt || other.alt,
                ctrl: self.ctrl || other.ctrl,
                super_key: self.super_key || other.super_key,
                hyper: self.hyper || other.hyper,
                meta: self.meta || other.meta,
                caps_lock: self.caps_lock || other.caps_lock,
                num_lock: self.num_lock || other.num_lock,
                scroll_lock: self.scroll_lock || other.scroll_lock,
            }),
    {
        KeyModifiers {
            shift: self.shift || other.shift,
            alt: self.alt || other.alt,
            ctrl: self.ctrl || other.ctrl,
            super_key: self.super_key || other.super_key,
            hyper: self.hyper || other.hyper,
            meta: self.meta || other.meta,
            caps_lock: self.caps_lock || other.caps_lock,
            num_lock: self.num_lock || other.num_lock,
            scroll_lock: self.scroll_lock || other.scroll_lock,
        }
    }
}

impl std::ops::BitOr for KeyModifiers {
    type Output = KeyModifiers;

    fn bitor(self, rhs: KeyModifiers) -> (r: KeyModifiers) {
        self.union(rhs)
    }
}

impl vstd::std_specs::ops::BitOrSpecImpl for KeyModifiers {
    open spec fn obeys_bitor_spec() -> bool {
        true
    }

    open spec fn bitor_req(self, rhs: KeyModifiers) -> bool {
        true
    }

    open spec fn bitor_spec(self, rhs: KeyModifiers) -> KeyModifiers {
        self.union(rhs)
    }
}

impl KeyModifiers {
    /// The modifiers that a wire mask stands for: shift, alt, control, super,
    /// hyper, meta, caps lock and num lock, from the lowest bit up.
    #[verifier::allow_in_spec]
    pub fn from_wire(mask: u32) -> KeyModifiers
        returns
            (KeyModifiers {
                shift: mask % 2 == 1,
                alt: (mask / 2) % 2 == 1,
                ctrl: (mask / 4) % 2 == 1,
                super_key: (mask / 8) % 2 == 1,
                hyper: (mask / 16) % 2 == 1,
                meta: (mask / 32) % 2 == 1,
                caps_lock: (mask / 64) % 2 == 1,
                num_lock: (mask / 128) % 2 == 1,
                scroll_lock: false,
            }),
    {
        KeyModifiers {
            shift: mask % 2 == 1,
            alt: (mask / 2) % 2 == 1,
            ctrl: (mask / 4) % 2 == 1,
            super_key: (mask / 8) % 2 == 1,
            hyper: (mask / 16) % 2 == 1,
            meta: (mask / 32) % 2 == 1,
            caps_lock: (mask / 64) % 2 == 1,
            num_lock: (mask / 128) % 2 == 1,
            scroll_lock: false,
        }
    }

    /// Whether a modifier is held that turns a key press into a command, so that
    /// the press types no text.
    #[verifier::allow_in_spec]
    pub fn is_command(self) -> bool
        returns
            (self.ctrl || self.alt || self.super_key || self.hyper || self.meta),
    {
        self.ctrl || self.alt || self.super_key || self.hyper || self.meta
    }

    /// A number that tells any two modifier sets apart.
    pub open spec fn spec_number(self) -> int {
        (if self.shift { 1int } else { 0 }) + (if self.alt { 2int } else { 0 })
            + (if self.ctrl { 4int } else { 0 }) + (if self.super_key { 8int } else { 0 })
            + (if self.hyper { 16int } else { 0 }) + (if self.meta { 32int } else { 0 })
            + (if self.caps_lock { 64int } else { 0 }) + (if self.num_lock { 128int } else { 0 })
            + (if self.scroll_lock { 256int } else { 0 })
    }

    /// Compute [`spec_number`](Self::spec_number).
    pub fn number(self) -> (r: u32)
        ensures
            r == self.spec_number(),
    {
        let a: u32 = if self.shift { 1 } else { 0 };
        let b: u32 = if self.alt { 2 } else { 0 };
        let c: u32 = if self.ctrl { 4 } else { 0 };
        let d: u32 = if self.super_key { 8 } else { 0 };
        let e: u32 = if self.hyper { 16 } else { 0 };
        let f: u32 = if self.meta { 32 } else { 0 };
        let g: u32 = if self.caps_lock { 64 } else { 0 };
        let h: u32 = if self.num_lock { 128 } else { 0 };
        let i: u32 = if self.scroll_lock { 256 } else { 0 };
        a + b + c + d + e + f + g + h + i
    }
}

/// Which key an event is about.
#[derive(Debug, Clone, Copy, PartialEq, Eq, Hash, Structural)]
pub enum KeyCode {
    /// A key that types this character.
    Char(char),
    /// The function key of this number.
    F(u8),
    /// A keypad digit.
    KpDigit(u8),
    /// Space.
    Space,
    /// Find.
    Find,
    /// Select.
    Select,
    /// Escape.
    Escape,
    /// Enter.
    Enter,
    /// Tab.
    Tab,
    /// Backspace.
    Backspace,
    /// Insert.
    Insert,
    /// Delete.
    Delete,
    /// Left.
    Left,
    /// Right.
    Right,
    /// Up.
    Up,
    /// Down.
    Down,
    /// Page Up.
    PageUp,
    /// Page Down.
    PageDown,
    /// Home.
    Home,
    /// End.
    End,
    /// Caps Lock.
    CapsLock,
    /// Scroll Lock.
    ScrollLock,
    /// Num Lock.
    NumLock,
    /// Print Screen.
    PrintScreen,
    /// Pause.
    Pause,
    /// Menu.
    Menu,
    /// Keypad Decimal.
    KpDecimal,
    /// Keypad Divide.
    KpDivide,
    /// Keypad Multiply.
    KpMultiply,
    /// Keypad Subtract.
    KpSubtract,
    /// Keypad Add.
    KpAdd,
    /// Keypad Enter.
    KpEnter,
    /// Keypad Equal.
    KpEqual,
    /// Keypad Separator.
    KpSeparator,
    /// Keypad Left.
    KpLeft,
    /// Keypad Right.
    KpRight,
    /// Keypad Up.
    KpUp,
    /// Keypad Down.
    KpDown,
    /// Keypad Page Up.
    KpPageUp,
    /// Keypad Page Down.
    KpPageDown,
    /// Keypad Home.
    KpHome,
    /// Keypad End.
    KpEnd,
    /// Keypad Insert.
    KpInsert,
    /// Keypad Delete.
    KpDelete,
    /// Keypad Begin.
    KpBegin,
    /// Media Play.
    MediaPlay,
    /// Media Pause.
    MediaPause,
    /// Media Play Pause.
    MediaPlayPause,
    /// Media Reverse.
    MediaReverse,
    /// Media Stop.
    MediaStop,
    /// Media Fast Forward.
    MediaFastForward,
    /// Media Rewind.
    MediaRewind,
    /// Media Track Next.
    MediaTrackNext,
    /// Media Track Previous.
    MediaTrackPrevious,
    /// Media Record.
    MediaRecord,
    /// Lower Volume.
    LowerVolume,
    /// Raise Volume.
    RaiseVolume,
    /// Mute Volume.
    MuteVolume,
    /// Left Shift.
    LeftShift,
    /// Left Ctrl.
    LeftCtrl,
    /// Left Alt.
    LeftAlt,
    /// Left Super.
    LeftSuper,
    /// Left Hyper.
    LeftHyper,
    /// Left Meta.
    LeftMeta,
    /// Right Shift.
    RightShift,
    /// Right Ctrl.
    RightCtrl,
    /// Right Alt.
    RightAlt,
    /// Right Super.
    RightSuper,
    /// Right Hyper.
    RightHyper,
    /// Right Meta.
    RightMeta,
    /// Iso Level3 Shift.
    IsoLevel3Shift,
    /// Iso Level5 Shift.
    IsoLevel5Shift,
}

impl KeyCode {
    /// The number of a named key in the functional-key range of the Kitty
    /// protocol; the function keys, keypad digits and the keys that the protocol
    /// leaves out are numbered by [`spec_number`](Self::spec_number).
    pub open spec fn functional_number(self) -> int {
        match self {
            KeyCode::Space => 1,
            KeyCode::Find => 2,
            KeyCode::Select => 3,
            KeyCode::Escape => 57344,
            KeyCode::Enter => 57345,
            KeyCode::Tab => 57346,
            KeyCode::Backspace => 57347,
            KeyCode::Insert => 57348,
            KeyCode::Delete => 57349,
            KeyCode::Left => 57350,
            KeyCode::Right => 57351,
            KeyCode::Up => 57352,
            KeyCode::Down => 57353,
            KeyCode::PageUp => 57354,
            KeyCode::PageDown => 57355,
            KeyCode::Home => 57356,
            KeyCode::End => 57357,
            KeyCode::CapsLock => 57358,
            KeyCode::ScrollLock => 57359,
            KeyCode::NumLock => 57360,
            KeyCode::PrintScreen => 57361,
            KeyCode::Pause => 57362,
            KeyCode::Menu => 57363,
            KeyCode::KpDecimal => 57409,
            KeyCode::KpDivide => 57410,
            KeyCode::KpMultiply => 57411,
            KeyCode::KpSubtract => 57412,
            KeyCode::KpAdd => 57413,
            KeyCode::KpEnter => 57414,
            KeyCode::KpEqual => 57415,
            KeyCode::KpSeparator => 57416,
            KeyCode::KpLeft => 57417,
            KeyCode::KpRight => 57418,
            KeyCode::KpUp => 57419,
            KeyCode::KpDown => 57420,
            KeyCode::KpPageUp => 57421,
            KeyCode::KpPageDown => 57422,
            KeyCode::KpHome => 57423,
            KeyCode::KpEnd => 57424,
            KeyCode::KpInsert => 57425,
            KeyCode::KpDelete => 57426,
            KeyCode::KpBegin => 57427,
            KeyCode::MediaPlay => 57428,
            KeyCode::MediaPause => 57429,
            KeyCode::MediaPlayPause => 57430,
            KeyCode::MediaReverse => 57431,
            KeyCode::MediaStop => 57432,
            KeyCode::MediaFastForward => 57433,
            KeyCode::MediaRewind => 57434,
            KeyCode::MediaTrackNext => 57435,
            KeyCode::MediaTrackPrevious => 57436,
            KeyCode::MediaRecord => 57437,
            KeyCode::LowerVolume => 57438,
            KeyCode::RaiseVolume => 57439,
            KeyCode::MuteVolume => 57440,
            KeyCode::LeftShift => 57441,
            KeyCode::LeftCtrl => 57442,
            KeyCode::LeftAlt => 57443,
            KeyCode::LeftSuper => 57444,
            KeyCode::LeftHyper => 57445,
            KeyCode::LeftMeta => 57446,
            KeyCode::RightShift => 57447,
            KeyCode::RightCtrl => 57448,
            KeyCode::RightAlt => 57449,
            KeyCode::RightSuper => 57450,
            KeyCode::RightHyper => 57451,
            KeyCode::RightMeta => 57452,
            KeyCode::IsoLevel3Shift => 57453,
            KeyCode::IsoLevel5Shift => 57454,
            _ => 0,
        }
    }

    /// A number that tells any two key codes apart.
    pub open spec fn spec_number(self) -> int {
        match self {
            KeyCode::Char(c) => c as int,
            KeyCode::F(n) => 0x11_0000 + n,
            KeyCode::KpDigit(n) => 0x11_0100 + n,
            _ => 0x12_0000 + self.functional_number(),
        }
    }

    /// Compute [`spec_number`](Self::spec_number).
    pub fn number(self) -> (r: u32)
        ensures
            r == self.spec_number(),
    {
        match self {
            KeyCode::Char(c) => c as u32,
            KeyCode::F(n) => 0x11_0000 + n as u32,
            KeyCode::KpDigit(n) => 0x11_0100 + n as u32,
            KeyCode::Space => 0x12_0001,
            KeyCode::Find => 0x12_0002,
            KeyCode::Select => 0x12_0003,
            KeyCode::Escape => 0x12_0000 + 57344,
            KeyCode::Enter => 0x12_0000 + 57345,
            KeyCode::Tab => 0x12_0000 + 57346,
            KeyCode::Backspace => 0x12_0000 + 57347,
            KeyCode::Insert => 0x12_0000 + 57348,
            KeyCode::Delete => 0x12_0000 + 57349,
            KeyCode::Left => 0x12_0000 + 57350,
            KeyCode::Right => 0x12_0000 + 57351,
            KeyCode::Up => 0x12_0000 + 57352,
            KeyCode::Down => 0x12_0000 + 57353,
            KeyCode::PageUp => 0x12_0000 + 57354,
            KeyCode::PageDown => 0x12_0000 + 57355,
            KeyCode::Home => 0x12_0000 + 57356,
            KeyCode::End => 0x12_0000 + 57357,
            KeyCode::CapsLock => 0x12_0000 + 57358,
            KeyCode::ScrollLock => 0x12_0000 + 57359,
            KeyCode::NumLock => 0x12_0000 + 57360,
            KeyCode::PrintScreen => 0x12_0000 + 57361,
            KeyCode::Pause => 0x12_0000 + 57362,
            KeyCode::Menu => 0x12_0000 + 57363,
            KeyCode::KpDecimal => 0x12_0000 + 57409,
            KeyCode::KpDivide => 0x12_0000 + 57410,
            KeyCode::KpMultiply => 0x12_0000 + 57411,
            KeyCode::KpSubtract => 0x12_0000 + 57412,
            KeyCode::KpAdd => 0x12_0000 + 57413,
            KeyCode::KpEnter => 0x12_0000 + 57414,
            KeyCode::KpEqual => 0x12_0000 + 57415,
            KeyCode::KpSeparator => 0x12_0000 + 57416,
            KeyCode::KpLeft => 0x12_0000 + 57417,
            KeyCode::KpRight => 0x12_0000 + 57418,
            KeyCode::KpUp => 0x12_0000 + 57419,
            KeyCode::KpDown => 0x12_0000 + 57420,
            KeyCode::KpPageUp => 0x12_0000 + 57421,
            KeyCode::KpPageDown => 0x12_0000 + 57422,
            KeyCode::KpHome => 0x12_0000 + 57423,
            KeyCode::KpEnd => 0x12_0000 + 57424,
            KeyCode::KpInsert => 0x12_0000 + 57425,
            KeyCode::KpDelete => 0x12_0000 + 57426,
            KeyCode::KpBegin => 0x12_0000 + 57427,
            KeyCode::MediaPlay => 0x12_0000 + 57428,
            KeyCode::MediaPause => 0x12_0000 + 57429,
            KeyCode::MediaPlayPause => 0x12_0000 + 57430,
            KeyCode::MediaReverse => 0x12_0000 + 57431,
            KeyCode::MediaStop => 0x12_0000 + 57432,
            KeyCode::MediaFastForward => 0x12_0000 + 57433,
            KeyCode::MediaRewind => 0x12_0000 + 57434,
            KeyCode::MediaTrackNext => 0x12_0000 + 57435,
            KeyCode::MediaTrackPrevious => 0x12_0000 + 57436,
            KeyCode::MediaRecord => 0x12_0000 + 57437,
            KeyCode::LowerVolume => 0x12_0000 + 57438,
            KeyCode::RaiseVolume => 0x12_0000 + 57439,
            KeyCode::MuteVolume => 0x12_0000 + 57440,
            KeyCode::LeftShift => 0x12_0000 + 57441,
            KeyCode::LeftCtrl => 0x12_0000 + 57442,
            KeyCode::LeftAlt => 0x12_0000 + 57443,
            KeyCode::LeftSuper => 0x12_0000 + 57444,
            KeyCode::LeftHyper => 0x12_0000 + 57445,
            KeyCode::LeftMeta => 0x12_0000 + 57446,
            KeyCode::RightShift => 0x12_0000 + 57447,
            KeyCode::RightCtrl => 0x12_0000 + 57448,
            KeyCode::RightAlt => 0x12_0000 + 57449,
            KeyCode::RightSuper => 0x12_0000 + 57450,
            KeyCode::RightHyper => 0x12_0000 + 57451,
            KeyCode::RightMeta => 0x12_0000 + 57452,
            KeyCode::IsoLevel3Shift => 0x12_0000 + 57453,
            KeyCode::IsoLevel5Shift => 0x12_0000 + 57454,
        }
    }
}

/// The key that a code of the Kitty functional range stands for.
pub open spec fn functional_key(n: int) -> Option<KeyCode> {
    if 57364 <= n <= 57398 {
        Some(KeyCode::F((n - 57363) as u8))
    } else if 57399 <= n <= 57408 {
        Some(KeyCode::KpDigit((n - 57399) as u8))
    } else {
        if n == 57344 {
            Some(KeyCode::Escape)
        } else if n == 57345 {
            Some(KeyCode::Enter)
        } else if n == 57346 {
            Some(KeyCode::Tab)
        } else if n == 57347 {
            Some(KeyCode::Backspace)
        } else if n == 57348 {
            Some(KeyCode::Insert)
        } else if n == 57349 {
            Some(KeyCode::Delete)
        } else if n == 57350 {
            Some(KeyCode::Left)
        } else if n == 57351 {
            Some(KeyCode::Right)
        } else if n == 57352 {
            Some(KeyCode::Up)
        } else if n == 57353 {
            Some(KeyCode::Down)
        } else if n == 57354 {
            Some(KeyCode::PageUp)
        } else if n == 57355 {
            Some(KeyCode::PageDown)
        } else if n == 57356 {
            Some(KeyCode::Home)
        } else if n == 57357 {
            Some(KeyCode::End)
        } else if n == 57358 {
            Some(KeyCode::CapsLock)
        } else if n == 57359 {
            Some(KeyCode::ScrollLock)
        } else if n == 57360 {
            Some(KeyCode::NumLock)
        } else if n == 57361 {
            Some(KeyCode::PrintScreen)
        } else if n == 57362 {
            Some(KeyCode::Pause)
        } else if n == 57363 {
            Some(KeyCode::Menu)
        } else if n == 57409 {
            Some(KeyCode::KpDecimal)
        } else if n == 57410 {
            Some(KeyCode::KpDivide)
        } else if n == 57411 {
            Some(KeyCode::KpMultiply)
        } else if n == 57412 {
            Some(KeyCode::KpSubtract)
        } else if n == 57413 {
            Some(KeyCode::KpAdd)
        } else if n == 57414 {
            Some(KeyCode::KpEnter)
        } else if n == 57415 {
            Some(KeyCode::KpEqual)
        } else if n == 57416 {
            Some(KeyCode::KpSeparator)
        } else if n == 57417 {
            Some(KeyCode::KpLeft)
        } else if n == 57418 {
            Some(KeyCode::KpRight)
        } else if n == 57419 {
            Some(KeyCode::KpUp)
        } else if n == 57420 {
            Some(KeyCode::KpDown)
        } else if n == 57421 {
            Some(KeyCode::KpPageUp)
        } else if n == 57422 {
            Some(KeyCode::KpPageDown)
        } else if n == 57423 {
            Some(KeyCode::KpHome)
        } else if n == 57424 {
            Some(KeyCode::KpEnd)
        } else if n == 57425 {
            Some(KeyCode::KpInsert)
        } else if n == 57426 {
            Some(KeyCode::KpDelete)
        } else if n == 57427 {
            Some(KeyCode::KpBegin)
        } else if n == 57428 {
            Some(KeyCode::MediaPlay)
        } else if n == 57429 {
            Some(KeyCode::MediaPause)
        } else if n == 57430 {
            Some(KeyCode::MediaPlayPause)
        } else if n == 57431 {
            Some(KeyCode::MediaReverse)
        } else if n == 57432 {
            Some(KeyCode::MediaStop)
        } else if n == 57433 {
            Some(KeyCode::MediaFastForward)
        } else if n == 57434 {
            Some(KeyCode::MediaRewind)
        } else if n == 57435 {
            Some(KeyCode::MediaTrackNext)
        } else if n == 57436 {
            Some(KeyCode::MediaTrackPrevious)
        } else if n == 57437 {
            Some(KeyCode::MediaRecord)
        } else if n == 57438 {
            Some(KeyCode::LowerVolume)
        } else if n == 57439 {
            Some(KeyCode::RaiseVolume)
        } else if n == 57440 {
            Some(KeyCode::MuteVolume)
        } else if n == 57441 {
            Some(KeyCode::LeftShift)
        } else if n == 57442 {
            Some(KeyCode::LeftCtrl)
        } else if n == 57443 {
            Some(KeyCode::LeftAlt)
        } else if n == 57444 {
            Some(KeyCode::LeftSuper)
        } else if n == 57445 {
            Some(KeyCode::LeftHyper)
        } else if n == 57446 {
            Some(KeyCode::LeftMeta)
        } else if n == 57447 {
            Some(KeyCode::RightShift)
        } else if n == 57448 {
            Some(KeyCode::RightCtrl)
        } else if n == 57449 {
            Some(KeyCode::RightAlt)
        } else if n == 57450 {
            Some(KeyCode::RightSuper)
        } else if n == 57451 {
            Some(KeyCode::RightHyper)
        } else if n == 57452 {
            Some(KeyCode::RightMeta)
        } else if n == 57453 {
            Some(KeyCode::IsoLevel3Shift)
        } else if n == 57454 {
            Some(KeyCode::IsoLevel5Shift)
        } else {
            None
        }
    }
}

/// Compute [`functional_key`].
pub fn read_functional_key(n: u32) -> (r: Option<KeyCode>)
    ensures
        r == functional_key(n as int),
{
    match n {
        57364..=57398 => Some(KeyCode::F((n - 57363) as u8)),
        57399..=57408 => Some(KeyCode::KpDigit((n - 57399) as u8)),
        57344 => Some(KeyCode::Escape),
        57345 => Some(KeyCode::Enter),
        57346 => Some(KeyCode::Tab),
        57347 => Some(KeyCode::Backspace),
        57348 => Some(KeyCode::Insert),
        57349 => Some(KeyCode::Delete),
        57350 => Some(KeyCode::Left),
        57351 => Some(KeyCode::Right),
        57352 => Some(KeyCode::Up),
        57353 => Some(KeyCode::Down),
        57354 => Some(KeyCode::PageUp),
        57355 => Some(KeyCode::PageDown),
        57356 => Some(KeyCode::Home),
        57357 => Some(KeyCode::End),
        57358 => Some(KeyCode::CapsLock),
        57359 => Some(KeyCode::ScrollLock),
        57360 => Some(KeyCode::NumLock),
        57361 => Some(KeyCode::PrintScreen),
        57362 => Some(KeyCode::Pause),
        57363 => Some(KeyCode::Menu),
        57409 => Some(KeyCode::KpDecimal),
        57410 => Some(KeyCode::KpDivide),
        57411 => Some(KeyCode::KpMultiply),
        57412 => Some(KeyCode::KpSubtract),
        57413 => Some(KeyCode::KpAdd),
        57414 => Some(KeyCode::KpEnter),
        57415 => Some(KeyCode::KpEqual),
        57416 => Some(KeyCode::KpSeparator),
        57417 => Some(KeyCode::KpLeft),
        57418 => Some(KeyCode::KpRight),
        57419 => Some(KeyCode::KpUp),
        57420 => Some(KeyCode::KpDown),
        57421 => Some(KeyCode::KpPageUp),
        57422 => Some(KeyCode::KpPageDown),
        57423 => Some(KeyCode::KpHome),
        57424 => Some(KeyCode::KpEnd),
        57425 => Some(KeyCode::KpInsert),
        57426 => Some(KeyCode::KpDelete),
        57427 => Some(KeyCode::KpBegin),
        57428 => Some(KeyCode::MediaPlay),
        57429 => Some(KeyCode::MediaPause),
        57430 => Some(KeyCode::MediaPlayPause),
        57431 => Some(KeyCode::MediaReverse),
        57432 => Some(KeyCode::MediaStop),
        57433 => Some(KeyCode::MediaFastForward),
        57434 => Some(KeyCode::MediaRewind),
        57435 => Some(KeyCode::MediaTrackNext),
        57436 => Some(KeyCode::MediaTrackPrevious),
        57437 => Some(KeyCode::MediaRecord),
        57438 => Some(KeyCode::LowerVolume),
        57439 => Some(KeyCode::RaiseVolume),
        57440 => Some(KeyCode::MuteVolume),
        57441 => Some(KeyCode::LeftShift),
        57442 => Some(KeyCode::LeftCtrl),
        57443 => Some(KeyCode::LeftAlt),
        57444 => Some(KeyCode::LeftSuper),
        57445 => Some(KeyCode::LeftHyper),
        57446 => Some(KeyCode::LeftMeta),
        57447 => Some(KeyCode::RightShift),
        57448 => Some(KeyCode::RightCtrl),
        57449 => Some(KeyCode::RightAlt),
        57450 => Some(KeyCode::RightSuper),
        57451 => Some(KeyCode::RightHyper),
        57452 => Some(KeyCode::RightMeta),
        57453 => Some(KeyCode::IsoLevel3Shift),
        57454 => Some(KeyCode::IsoLevel5Shift),
        _ => None,
    }
}

/// A functional-key code names the key that carries that number.
pub proof fn law_functional_keys_round_trip(code: KeyCode)
    requires
        code.functional_number() >= 57344,
    ensures
        functional_key(code.functional_number()) == Some(code),
{
}

/// What `char::to_lowercase` yields for a character.
pub uninterp spec fn lowercase_mapping(c: char) -> Seq<char>;

/// What `char::to_uppercase` yields for a character.
pub uninterp spec fn uppercase_mapping(c: char) -> Seq<char>;

/// Calls `char::to_lowercase` and collects what it yields. Only that the result
/// is a function of the character is claimed.
#[verifier::external_body]
fn to_lowercase(c: char) -> (r: Vec<char>)
    ensures
        r@ == lowercase_mapping(c),
{
    c.to_lowercase().collect()
}

/// Calls `char::to_uppercase` and collects what it yields. Only that the result
/// is a function of the character is claimed.
#[verifier::external_body]
fn to_uppercase(c: char) -> (r: Vec<char>)
    ensures
        r@ == uppercase_mapping(c),
{
    c.to_uppercase().collect()
}

/// `String::push` appends one character.
pub assume_specification[ String::push ](s: &mut String, c: char)
    ensures
        final(s)@ == old(s)@.push(c),
;

/// `char::from_u32` yields the character of a Unicode scalar value, and nothing
/// for a surrogate or a value beyond U+10FFFF.
pub assume_specification[ char::from_u32 ](i: u32) -> (r: Option<char>)
    ensures
        r == scalar(i as int),
;

/// The character of a Unicode scalar value.
pub open spec fn scalar(i: int) -> Option<char> {
    if 0 <= i <= 0xd7ff || 0xe000 <= i <= 0x10_ffff {
        Some(i as char)
    } else {
        None
    }
}

/// The mapping when it is a single character.
pub open spec fn single(mapping: Seq<char>) -> Option<char> {
    if mapping.len() == 1 {
        Some(mapping[0])
    } else {
        None
    }
}

/// The lowercase form of `c`, when it is a single character.
pub open spec fn lower_of(c: char) -> Option<char> {
    if 'A' <= c && c <= 'Z' {
        Some((c as int + 32) as char)
    } else if (c as int) < 0x80 {
        Some(c)
    } else {
        single(lowercase_mapping(c))
    }
}

/// The uppercase form of `c`, when it is a single character.
pub open spec fn upper_of(c: char) -> Option<char> {
    if 'a' <= c && c <= 'z' {
        Some((c as int - 32) as char)
    } else if (c as int) < 0x80 {
        Some(c)
    } else {
        single(uppercase_mapping(c))
    }
}

/// The lowercase form of an ASCII byte, as a character.
pub open spec fn ascii_lower(b: u8) -> char {
    if 0x41 <= b <= 0x5a {
        (b + 32) as char
    } else {
        b as char
    }
}

/// Compute [`ascii_lower`].
pub fn to_ascii_lower(b: u8) -> (r: char)
    ensures
        r == ascii_lower(b),
{
    if b >= 0x41 && b <= 0x5a {
        (b + 32) as char
    } else {
        b as char
    }
}

/// Compute [`single`].
fn single_char(mapping: &Vec<char>) -> (r: Option<char>)
    ensures
        r == single(mapping@),
{
    if mapping.len() == 1 {
        Some(mapping[0])
    } else {
        None
    }
}

/// Compute [`lower_of`].
pub fn single_lower(c: char) -> (r: Option<char>)
    ensures
        r == lower_of(c),
{
    let n: u32 = c as u32;
    if n < 0x80 {
        Some(to_ascii_lower(n as u8))
    } else {
        single_char(&to_lowercase(c))
    }
}

/// Compute [`upper_of`].
pub fn single_upper(c: char) -> (r: Option<char>)
    ensures
        r == upper_of(c),
{
    let n: u32 = c as u32;
    if n >= 0x61 && n <= 0x7a {
        Some((n - 32) as u8 as char)
    } else if n < 0x80 {
        Some(c)
    } else {
        single_char(&to_uppercase(c))
    }
}

/// The text of one character.
pub fn char_text(c: char) -> (r: String)
    ensures
        r@ == seq![c],
{
    let mut s: String = String::new();
    s.push(c);
    assert(s@ =~= seq![c]);
    s
}

/// A key with the modifiers held and what is known of the text it produced.
#[derive(Debug, Eq)]
pub struct Key {
    /// Which key.
    pub code: KeyCode,
    /// The modifiers held.
    pub modifiers: KeyModifiers,
    /// The text that the press typed, if any.
    pub text: Option<String>,
    /// The character that the key types with Shift, if known.
    pub shifted_key: Option<char>,
    /// The character of the key in the base layout, if known.
    pub base_key: Option<char>,
}

/// A [`Key`] with its text as a character sequence.
#[verifier::ext_equal]
pub struct KeyView {
    pub code: KeyCode,
    pub modifiers: KeyModifiers,
    pub text: Option<Seq<char>>,
    pub shifted_key: Option<char>,
    pub base_key: Option<char>,
}

/// The characters of an optional string.
pub open spec fn text_view(text: Option<String>) -> Option<Seq<char>> {
    match text {
        Some(s) => Some(s@),
        None => None,
    }
}

impl View for Key {
    type V = KeyView;

    open spec fn view(&self) -> KeyView {
        KeyView {
            code: self.code,
            modifiers: self.modifiers,
            text: text_view(self.text),
            shifted_key: self.shifted_key,
            base_key: self.base_key,
        }
    }
}

impl PartialEq for Key {
    fn eq(&self, other: &Key) -> (r: bool) {
        self.code == other.code && self.modifiers == other.modifiers
    }
}

impl vstd::std_specs::cmp::PartialEqSpecImpl for Key {
    open spec fn obeys_eq_spec() -> bool {
        true
    }

    open spec fn eq_spec(&self, other: &Key) -> bool {
        self.code == other.code && self.modifiers == other.modifiers
    }
}

/// `u32`'s own hash feeds the number to the hasher. Nothing is claimed of the
/// hasher's state.
pub assume_specification<H: std::hash::Hasher>[ <u32 as std::hash::Hash>::hash ](
    n: &u32,
    state: &mut H,
)
;

impl std::hash::Hash for Key {
    fn hash<H: std::hash::Hasher>(&self, state: &mut H) {
        self.code.number().hash(state);
        self.modifiers.number().hash(state);
    }
}

impl Clone for Key {
    fn clone(&self) -> (r: Key)
        ensures
            r@ == self@,
    {
        Key {
            code: self.code,
            modifiers: self.modifiers,
            text: match &self.text {
                Some(s) => Some(s.clone()),
                None => None,
            },
            shifted_key: self.shifted_key,
            base_key: self.base_key,
        }
    }
}

/// A key without text or alternate values.
pub open spec fn plain_key(code: KeyCode, modifiers: KeyModifiers) -> KeyView {
    KeyView { code, modifiers, text: None, shifted_key: None, base_key: None }
}

/// The canonical form of a key, given the single-character lowercase and
/// uppercase forms of its character.
///
/// An uppercase letter becomes its lowercase letter with Shift, unless Caps Lock
/// accounts for the case. The shifted character and the typed text are filled in
/// where they are not known already; a command types no text.
pub open spec fn canonical(k: KeyView, lower: Option<char>, upper: Option<char>) -> KeyView {
    match k.code {
        KeyCode::Char(c) => {
            let is_upper = lower is Some && lower->0 != c;
            let has_upper = upper is Some && upper->0 != c;
            let modifiers = if is_upper && !k.modifiers.caps_lock {
                k.modifiers.union(KeyModifiers::shift())
            } else {
                k.modifiers
            };
            let shifted_key = if k.shifted_key is Some {
                k.shifted_key
            } else if is_upper {
                Some(c)
            } else if has_upper && k.modifiers.shift {
                upper
            } else {
                None
            };
            let typed = if modifiers.shift && !modifiers.caps_lock && shifted_key is Some {
                shifted_key->0
            } else {
                c
            };
            KeyView {
                code: if is_upper {
                    KeyCode::Char(lower->0)
                } else {
                    k.code
                },
                modifiers,
                text: if k.text is Some {
                    k.text
                } else if modifiers.is_command() {
                    None
                } else {
                    Some(seq![typed])
                },
                shifted_key,
                base_key: k.base_key,
            }
        },
        KeyCode::Space => KeyView {
            text: if k.text is Some || k.modifiers.is_command() {
                k.text
            } else {
                Some(seq![' '])
            },
            ..k
        },
        _ => k,
    }
}

/// The canonical form of a key.
pub open spec fn normalize(k: KeyView) -> KeyView {
    match k.code {
        KeyCode::Char(c) => canonical(k, lower_of(c), upper_of(c)),
        _ => canonical(k, None, None),
    }
}

/// The canonical key of a code and modifiers alone.
pub open spec fn key_of(code: KeyCode, modifiers: KeyModifiers) -> KeyView {
    normalize(plain_key(code, modifiers))
}

impl Key {
    /// A key without text or alternate values.
    pub fn new(code: KeyCode, modifiers: KeyModifiers) -> (r: Key)
        ensures
            r@ == plain_key(code, modifiers),
    {
        Key { code, modifiers, text: None, shifted_key: None, base_key: None }
    }

    /// The canonical form of this key, given the single-character case forms of
    /// its character.
    pub fn canonicalized(self, lower: Option<char>, upper: Option<char>) -> (r: Key)
        ensures
            r@ == canonical(self@, lower, upper),
    {
        let mut key = self;
        match key.code {
            KeyCode::Char(c) => {
                let mut is_upper = false;
                if let Some(l) = lower {
                    if l != c {
                        is_upper = true;
                        key.code = KeyCode::Char(l);
                    }
                }
                if key.shifted_key.is_none() {
                    if is_upper {
                        key.shifted_key = Some(c);
                    } else if key.modifiers.shift {
                        if let Some(u) = upper {
                            if u != c {
                                key.shifted_key = Some(u);
                            }
                        }
                    }
                }
                if is_upper && !key.modifiers.caps_lock {
                    key.modifiers = key.modifiers.union(KeyModifiers::shift());
                }
                if key.text.is_none() && !key.modifiers.is_command() {
                    let mut typed: char = c;
                    if key.modifiers.shift && !key.modifiers.caps_lock {
                        if let Some(s) = key.shifted_key {
                            typed = s;
                        }
                    }
                    key.text = Some(char_text(typed));
                }
            },
            KeyCode::Space => {
                if key.text.is_none() && !key.modifiers.is_command() {
                    key.text = Some(char_text(' '));
                }
            },
            _ => {},
        }
        key
    }

    /// The canonical form of this key: the one that every encoding of the same
    /// key press decodes to.
    pub fn normalized(self) -> (r: Key)
        ensures
            r@ == normalize(self@),
    {
        match self.code {
            KeyCode::Char(c) => self.canonicalized(single_lower(c), single_upper(c)),
            _ => self.canonicalized(None, None),
        }
    }

    /// The canonical key of a code and modifiers alone.
    pub fn of(code: KeyCode, modifiers: KeyModifiers) -> (r: Key)
        ensures
            r@ == key_of(code, modifiers),
    {
        Key::new(code, modifiers).normalized()
    }
}

/// Equal keys feed equal numbers to a hasher, and different keys different ones.
pub proof fn law_key_hash_follows_identity(a: Key, b: Key)
    ensures
        (a.code.spec_number() == b.code.spec_number() && a.modifiers.spec_number()
            == b.modifiers.spec_number()) <==> (a.code == b.code && a.modifiers == b.modifiers),
{
}

/// For an ASCII letter, the upper case letter and the lower case letter with
/// Shift are one key, with the same text and shifted character.
pub proof fn law_shifted_letter_is_upper_case(c: char, modifiers: KeyModifiers)
    requires
        'a' <= c && c <= 'z',
        !modifiers.caps_lock,
    ensures
        key_of(KeyCode::Char((c as int - 32) as char), modifiers) == key_of(
            KeyCode::Char(c),
            modifiers.union(KeyModifiers::shift()),
        ),
{
    let k = key_of(KeyCode::Char((c as int - 32) as char), modifiers);
    assert(k =~= key_of(KeyCode::Char(c), modifiers.union(KeyModifiers::shift())));
}

} // verus!
