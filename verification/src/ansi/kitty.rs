//! Kitty keyboard protocol flags and their encoder.

use crate::bytes::{append_decimal, append_str, digits};
use vstd::prelude::*;
use vstd::string::*;

verus! {

/// Progressive enhancements of the Kitty keyboard protocol.
#[derive(Debug, Clone, Copy, PartialEq, Eq, Hash, Structural)]
pub struct KittyKeyboardFlags {
    /// Bit 0: encode ambiguous keys unambiguously.
    pub disambiguate_escape_codes: bool,
    /// Bit 1: report repeat and release events.
    pub report_event_types: bool,
    /// Bit 2: report shifted and base-layout keys.
    pub report_alternate_keys: bool,
    /// Bit 3: report every key as an escape code.
    pub report_all_keys_as_escape_codes: bool,
    /// Bit 4: report the text a key produces.
    pub report_associated_text: bool,
}

impl KittyKeyboardFlags {
    /// The set without any flag.
    #[verifier::allow_in_spec]
    pub fn empty() -> KittyKeyboardFlags
        returns
            (KittyKeyboardFlags {
                disambiguate_escape_codes: false,
                report_event_types: false,
                report_alternate_keys: false,
                report_all_keys_as_escape_codes: false,
                report_associated_text: false,
            }),
    {
        KittyKeyboardFlags {
            disambiguate_escape_codes: false,
            report_event_types: false,
            report_alternate_keys: false,
            report_all_keys_as_escape_codes: false,
            report_associated_text: false,
        }
    }

    /// The set of this flag alone. Bit 0: encode ambiguous keys unambiguously.
    #[verifier::allow_in_spec]
    pub fn disambiguate_escape_codes() -> KittyKeyboardFlags
        returns
            (KittyKeyboardFlags { disambiguate_escape_codes: true, ..KittyKeyboardFlags::empty() }),
    {
        KittyKeyboardFlags { disambiguate_escape_codes: true, ..KittyKeyboardFlags::empty() }
    }

    /// The set of this flag alone. Bit 1: report repeat and release events.
    #[verifier::allow_in_spec]
    pub fn report_event_types() -> KittyKeyboardFlags
        returns
            (KittyKeyboardFlags { report_event_types: true, ..KittyKeyboardFlags::empty() }),
    {
        KittyKeyboardFlags { report_event_types: true, ..KittyKeyboardFlags::empty() }
    }

    /// The set of this flag alone. Bit 2: report shifted and base-layout keys.
    #[verifier::allow_in_spec]
    pub fn report_alternate_keys() -> KittyKeyboardFlags
        returns
            (KittyKeyboardFlags { report_alternate_keys: true, ..KittyKeyboardFlags::empty() }),
    {
        KittyKeyboardFlags { report_alternate_keys: true, ..KittyKeyboardFlags::empty() }
    }

    /// The set of this flag alone. Bit 3: report every key as an escape code.
    #[verifier::allow_in_spec]
    pub fn report_all_keys_as_escape_codes() -> KittyKeyboardFlags
        returns
            (KittyKeyboardFlags {
                report_all_keys_as_escape_codes: true,
                ..KittyKeyboardFlags::empty()
            }),
    {
        KittyKeyboardFlags { report_all_keys_as_escape_codes: true, ..KittyKeyboardFlags::empty() }
    }

    /// The set of this flag alone. Bit 4: report the text a key produces.
    #[verifier::allow_in_spec]
    pub fn report_associated_text() -> KittyKeyboardFlags
        returns
            (KittyKeyboardFlags { report_associated_text: true, ..KittyKeyboardFlags::empty() }),
    {
        KittyKeyboardFlags { report_associated_text: true, ..KittyKeyboardFlags::empty() }
    }

    /// Whether every flag of `other` is in `self`.
    #[verifier::allow_in_spec]
    pub fn contains(self, other: KittyKeyboardFlags) -> bool
        returns
            ((!other.disambiguate_escape_codes || self.disambiguate_escape_codes)
                && (!other.report_event_types || self.report_event_types)
                && (!other.report_alternate_keys || self.report_alternate_keys)
                && (!other.report_all_keys_as_escape_codes || self.report_all_keys_as_escape_codes)
                && (!other.report_associated_text || self.report_associated_text)),
    {
        (!other.disambiguate_escape_codes || self.disambiguate_escape_codes)
            && (!other.report_event_types || self.report_event_types)
            && (!other.report_alternate_keys || self.report_alternate_keys)
            && (!other.report_all_keys_as_escape_codes || self.report_all_keys_as_escape_codes)
            && (!other.report_associated_text || self.report_associated_text)
    }

    /// Whether no flag is in the set.
    #[verifier::allow_in_spec]
    pub fn is_empty(self) -> bool
        returns
            (!self.disambiguate_escape_codes
                && !self.report_event_types
                && !self.report_alternate_keys
                && !self.report_all_keys_as_escape_codes
                && !self.report_associated_text),
    {
        !self.disambiguate_escape_codes
            && !self.report_event_types
            && !self.report_alternate_keys
            && !self.report_all_keys_as_escape_codes
            && !self.report_associated_text
    }

    /// The flags of either set.
    #[verifier::allow_in_spec]
    pub fn union(self, other: KittyKeyboardFlags) -> KittyKeyboardFlags
        returns
            (KittyKeyboardFlags {
                disambiguate_escape_codes: self.disambiguate_escape_codes
                    || other.disambiguate_escape_codes,
                report_event_types: self.report_event_types || other.report_event_types,
                report_alternate_keys: self.report_alternate_keys || other.report_alternate_keys,
                report_all_keys_as_escape_codes: self.report_all_keys_as_escape_codes
                    || other.report_all_keys_as_escape_codes,
                report_associated_text: self.report_associated_text || other.report_associated_text,
            }),
    {
        KittyKeyboardFlags {
            disambiguate_escape_codes: self.disambiguate_escape_codes
                    || other.disambiguate_escape_codes,
            report_event_types: self.report_event_types || other.report_event_types,
            report_alternate_keys: self.report_alternate_keys || other.report_alternate_keys,
            report_all_keys_as_escape_codes: self.report_all_keys_as_escape_codes
                    || other.report_all_keys_as_escape_codes,
            report_associated_text: self.report_associated_text || other.report_associated_text,
        }
    }
}

impl std::ops::BitOr for KittyKeyboardFlags {
    type Output = KittyKeyboardFlags;

    fn bitor(self, rhs: KittyKeyboardFlags) -> (r: KittyKeyboardFlags) {
        self.union(rhs)
    }
}

impl vstd::std_specs::ops::BitOrSpecImpl for KittyKeyboardFlags {
    open spec fn obeys_bitor_spec() -> bool {
        true
    }

    open spec fn bitor_req(self, rhs: KittyKeyboardFlags) -> bool {
        true
    }

    open spec fn bitor_spec(self, rhs: KittyKeyboardFlags) -> KittyKeyboardFlags {
        self.union(rhs)
    }
}

impl KittyKeyboardFlags {
    /// The numeric value of the set on the wire.
    pub open spec fn spec_bits(self) -> int {
        (if self.disambiguate_escape_codes { 1int } else { 0 })
            + (if self.report_event_types { 2int } else { 0 })
            + (if self.report_alternate_keys { 4int } else { 0 })
            + (if self.report_all_keys_as_escape_codes { 8int } else { 0 })
            + (if self.report_associated_text { 16int } else { 0 })
    }

    /// Return the numeric value of the set on the wire.
    pub fn bits(self) -> (r: u8)
        ensures
            r == self.spec_bits(),
    {
        let a: u8 = if self.disambiguate_escape_codes { 1 } else { 0 };
        let b: u8 = if self.report_event_types { 2 } else { 0 };
        let c: u8 = if self.report_alternate_keys { 4 } else { 0 };
        let d: u8 = if self.report_all_keys_as_escape_codes { 8 } else { 0 };
        let e: u8 = if self.report_associated_text { 16 } else { 0 };
        a + b + c + d + e
    }

    /// The set whose wire value has the low five bits of `bits`; higher bits are
    /// dropped.
    #[verifier::allow_in_spec]
    pub fn from_bits_truncate(bits: u8) -> KittyKeyboardFlags
        returns
            (KittyKeyboardFlags {
                disambiguate_escape_codes: bits % 2 == 1,
                report_event_types: (bits / 2) % 2 == 1,
                report_alternate_keys: (bits / 4) % 2 == 1,
                report_all_keys_as_escape_codes: (bits / 8) % 2 == 1,
                report_associated_text: (bits / 16) % 2 == 1,
            }),
    {
        KittyKeyboardFlags {
            disambiguate_escape_codes: bits % 2 == 1,
            report_event_types: (bits / 2) % 2 == 1,
            report_alternate_keys: (bits / 4) % 2 == 1,
            report_all_keys_as_escape_codes: (bits / 8) % 2 == 1,
            report_associated_text: (bits / 16) % 2 == 1,
        }
    }
}

/// Request the active enhancement flags: `ESC [ ? u`.
pub const REQUEST_KITTY_KEYBOARD: &'static str = "\x1b[?u";

/// The bytes that replace the active enhancement flags, `ESC [ = <flags> ; 1 u`.
pub open spec fn set_keyboard_bytes(flags: KittyKeyboardFlags) -> Seq<u8> {
    "\x1b[=".spec_bytes() + digits(flags.spec_bits() as nat) + ";1u".spec_bytes()
}

/// Replace the active enhancement flags.
pub fn write_set_kitty_keyboard(w: &mut Vec<u8>, flags: KittyKeyboardFlags)
    ensures
        final(w)@ == old(w)@ + set_keyboard_bytes(flags),
{
    append_str(w, "\x1b[=");
    append_decimal(w, flags.bits() as u32);
    append_str(w, ";1u");
    assert(w@ =~= old(w)@ + set_keyboard_bytes(flags));
}

/// Reading the wire value of a flag set gives back the set.
pub proof fn law_kitty_flags_round_trip(flags: KittyKeyboardFlags)
    ensures
        KittyKeyboardFlags::from_bits_truncate(flags.spec_bits() as u8) == flags,
{
}

} // verus!
