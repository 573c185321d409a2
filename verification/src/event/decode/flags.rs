//! Choices between readings of ambiguous legacy input.

use vstd::prelude::*;

verus! {

/// Preferred interpretations of ambiguous legacy keys.
#[derive(Debug, Clone, Copy, PartialEq, Eq, Hash, Structural)]
pub struct DecoderFlags {
    /// Read NUL as Ctrl+@ instead of Ctrl+Space.
    pub ctrl_at: bool,
    /// Read HT as Ctrl+i instead of Tab.
    pub ctrl_i: bool,
    /// Read CR as Ctrl+m instead of Enter.
    pub ctrl_m: bool,
    /// Read a lone ESC as Ctrl+[ instead of Escape.
    pub ctrl_open_bracket: bool,
    /// Read DEL as Delete instead of Backspace.
    pub backspace_is_delete: bool,
    /// Read key number 1 as Find instead of Home.
    pub find_key: bool,
    /// Read key number 4 as Select instead of End.
    pub select_key: bool,
}

impl DecoderFlags {
    /// The set without any flag.
    #[verifier::allow_in_spec]
    pub fn empty() -> DecoderFlags
        returns
            (DecoderFlags {
                ctrl_at: false,
                ctrl_i: false,
                ctrl_m: false,
                ctrl_open_bracket: false,
                backspace_is_delete: false,
                find_key: false,
                select_key: false,
            }),
    {
        DecoderFlags {
            ctrl_at: false,
            ctrl_i: false,
            ctrl_m: false,
            ctrl_open_bracket: false,
            backspace_is_delete: false,
            find_key: false,
            select_key: false,
        }
    }

    /// The set of this flag alone. Read NUL as Ctrl+@ instead of Ctrl+Space.
    #[verifier::allow_in_spec]
    pub fn ctrl_at() -> DecoderFlags
        returns
            (DecoderFlags { ctrl_at: true, ..DecoderFlags::empty() }),
    {
        DecoderFlags { ctrl_at: true, ..DecoderFlags::empty() }
    }

    /// The set of this flag alone. Read HT as Ctrl+i instead of Tab.
    #[verifier::allow_in_spec]
    pub fn ctrl_i() -> DecoderFlags
        returns
            (DecoderFlags { ctrl_i: true, ..DecoderFlags::empty() }),
    {
        DecoderFlags { ctrl_i: true, ..DecoderFlags::empty() }
    }

    /// The set of this flag alone. Read CR as Ctrl+m instead of Enter.
    #[verifier::allow_in_spec]
    pub fn ctrl_m() -> DecoderFlags
        returns
            (DecoderFlags { ctrl_m: true, ..DecoderFlags::empty() }),
    {
        DecoderFlags { ctrl_m: true, ..DecoderFlags::empty() }
    }

    /// The set of this flag alone. Read a lone ESC as Ctrl+[ instead of Escape.
    #[verifier::allow_in_spec]
    pub fn ctrl_open_bracket() -> DecoderFlags
        returns
            (DecoderFlags { ctrl_open_bracket: true, ..DecoderFlags::empty() }),
    {
        DecoderFlags { ctrl_open_bracket: true, ..DecoderFlags::empty() }
    }

    /// The set of this flag alone. Read DEL as Delete instead of Backspace.
    #[verifier::allow_in_spec]
    pub fn backspace_is_delete() -> DecoderFlags
        returns
            (DecoderFlags { backspace_is_delete: true, ..DecoderFlags::empty() }),
    {
        DecoderFlags { backspace_is_delete: true, ..DecoderFlags::empty() }
    }

    /// The set of this flag alone. Read key number 1 as Find instead of Home.
    #[verifier::allow_in_spec]
    pub fn find_key() -> DecoderFlags
        returns
            (DecoderFlags { find_key: true, ..DecoderFlags::empty() }),
    {
        DecoderFlags { find_key: true, ..DecoderFlags::empty() }
    }

    /// The set of this flag alone. Read key number 4 as Select instead of End.
    #[verifier::allow_in_spec]
    pub fn select_key() -> DecoderFlags
        returns
            (DecoderFlags { select_key: true, ..DecoderFlags::empty() }),
    {
        DecoderFlags { select_key: true, ..DecoderFlags::empty() }
    }

    /// Whether every flag of `other` is in `self`.
    #[verifier::allow_in_spec]
    pub fn contains(self, other: DecoderFlags) -> bool
        returns
            ((!other.ctrl_at || self.ctrl_at)
                && (!other.ctrl_i || self.ctrl_i)
                && (!other.ctrl_m || self.ctrl_m)
                && (!other.ctrl_open_bracket || self.ctrl_open_bracket)
                && (!other.backspace_is_delete || self.backspace_is_delete)
                && (!other.find_key || self.find_key)
                && (!other.select_key || self.select_key)),
    {
        (!other.ctrl_at || self.ctrl_at)
            && (!other.ctrl_i || self.ctrl_i)
            && (!other.ctrl_m || self.ctrl_m)
            && (!other.ctrl_open_bracket || self.ctrl_open_bracket)
            && (!other.backspace_is_delete || self.backspace_is_delete)
            && (!other.find_key || self.find_key)
            && (!other.select_key || self.select_key)
    }

    /// Whether no flag is in the set.
    #[verifier::allow_in_spec]
    pub fn is_empty(self) -> bool
        returns
            (!self.ctrl_at
                && !self.ctrl_i
                && !self.ctrl_m
                && !self.ctrl_open_bracket
                && !self.backspace_is_delete
                && !self.find_key
                && !self.select_key),
    {
        !self.ctrl_at
            && !self.ctrl_i
            && !self.ctrl_m
            && !self.ctrl_open_bracket
            && !self.backspace_is_delete
            && !self.find_key
            && !self.select_key
    }

    /// The flags of either set.
    #[verifier::allow_in_spec]
    pub fn union(self, other: DecoderFlags) -> DecoderFlags
        returns
            (DecoderFlags {
                ctrl_at: self.ctrl_at || other.ctrl_at,
                ctrl_i: self.ctrl_i || other.ctrl_i,
                ctrl_m: self.ctrl_m || other.ctrl_m,
                ctrl_open_bracket: self.ctrl_open_bracket || other.ctrl_open_bracket,
                backspace_is_delete: self.backspace_is_delete || other.backspace_is_delete,
                find_key: self.find_key || other.find_key,
                select_key: self.select_key || other.select_key,
            }),
    {
        DecoderFlags {
            ctrl_at: self.ctrl_at || other.ctrl_at,
            ctrl_i: self.ctrl_i || other.ctrl_i,
            ctrl_m: self.ctrl_m || other.ctrl_m,
            ctrl_open_bracket: self.ctrl_open_bracket || other.ctrl_open_bracket,
            backspace_is_delete: self.backspace_is_delete || other.backspace_is_delete,
            find_key: self.find_key || other.find_key,
            select_key: self.select_key || other.select_key,
        }
    }
}

impl std::ops::BitOr for DecoderFlags {
    type Output = DecoderFlags;

    fn bitor(self, rhs: DecoderFlags) -> (r: DecoderFlags) {
        self.union(rhs)
    }
}

impl vstd::std_specs::ops::BitOrSpecImpl for DecoderFlags {
    open spec fn obeys_bitor_spec() -> bool {
        true
    }

    open spec fn bitor_req(self, rhs: DecoderFlags) -> bool {
        true
    }

    open spec fn bitor_spec(self, rhs: DecoderFlags) -> DecoderFlags {
        self.union(rhs)
    }
}

} // verus!
