//! ANSI and DEC private terminal modes.
//!
//! Standard ANSI modes omit a private prefix; DEC private modes insert `?`
//! after CSI. Final byte `h` sets a mode, `l` resets it, `$p` requests its
//! state, and `$y` reports it.
//!
//! ```text
//! ESC [  ?  2 0 4 8  h        CSI ? 2048 h  (enable mode 2048)
//! ──┬── ─┬─ ───┬──── ┬
//!  CSI  priv  params final
//! ```
//!
//! [`write_set_mode`] and [`write_reset_mode`] split a mixed slice into one DEC
//! and one ANSI sequence because the prefixes differ. An empty slice emits
//! nothing.

use crate::bytes::{append_decimal, append_str, digits};
use vstd::prelude::*;
use vstd::string::*;

verus! {

/// A terminal mode addressable by ANSI SM/RM or DECSET/DECRST.
#[derive(Debug, Clone, Copy, PartialEq, Eq, Hash, Structural)]
pub enum Mode {
    /// Standard ANSI mode number.
    Ansi(u16),
    /// DEC private mode number.
    Dec(u16),
}

/// Well-known modes.
impl Mode {
    /// DEC private mode 1 (DECCKM): cursor keys send application sequences when set and normal cursor sequences when reset.
    #[verifier::allow_in_spec]
    pub fn cursor_keys() -> Mode
        returns
            Mode::Dec(1),
    {
        Mode::Dec(1)
    }

    /// DEC private mode 2 (DECANM): selects ANSI mode when set and VT52 mode when reset on terminals that implement it.
    #[verifier::allow_in_spec]
    pub fn ansi_vt52() -> Mode
        returns
            Mode::Dec(2),
    {
        Mode::Dec(2)
    }

    /// DEC private mode 3 (DECCOLM): 132-column mode when set; commonly resets margins and clears display on supporting terminals.
    #[verifier::allow_in_spec]
    pub fn column_132() -> Mode
        returns
            Mode::Dec(3),
    {
        Mode::Dec(3)
    }

    /// DEC private mode 4 (DECSCLM): smooth scrolling when set, jump scrolling when reset.
    #[verifier::allow_in_spec]
    pub fn smooth_scroll() -> Mode
        returns
            Mode::Dec(4),
    {
        Mode::Dec(4)
    }

    /// DEC private mode 5 (DECSCNM): reverse-video screen mode.
    #[verifier::allow_in_spec]
    pub fn reverse_video() -> Mode
        returns
            Mode::Dec(5),
    {
        Mode::Dec(5)
    }

    /// DEC private mode 6 (DECOM): absolute cursor positions are relative to the scroll region when set.
    #[verifier::allow_in_spec]
    pub fn origin() -> Mode
        returns
            Mode::Dec(6),
    {
        Mode::Dec(6)
    }

    /// DEC private mode 7 (DECAWM): automatically wrap at the right margin when set.
    #[verifier::allow_in_spec]
    pub fn auto_wrap() -> Mode
        returns
            Mode::Dec(7),
    {
        Mode::Dec(7)
    }

    /// DEC private mode 8 (DECARM): key auto-repeat enabled when set.
    #[verifier::allow_in_spec]
    pub fn auto_repeat() -> Mode
        returns
            Mode::Dec(8),
    {
        Mode::Dec(8)
    }

    /// DEC private mode 9: X10 mouse reporting.
    #[verifier::allow_in_spec]
    pub fn mouse_x10() -> Mode
        returns
            Mode::Dec(9),
    {
        Mode::Dec(9)
    }

    /// DEC private mode 18 (DECPFF): print form-feed mode.
    #[verifier::allow_in_spec]
    pub fn print_form_feed() -> Mode
        returns
            Mode::Dec(18),
    {
        Mode::Dec(18)
    }

    /// DEC private mode 19 (DECPEX): print extent mode.
    #[verifier::allow_in_spec]
    pub fn print_extent() -> Mode
        returns
            Mode::Dec(19),
    {
        Mode::Dec(19)
    }

    /// DEC private mode 25 (DECTCEM): cursor visible when set, hidden when reset.
    #[verifier::allow_in_spec]
    pub fn cursor_visible() -> Mode
        returns
            Mode::Dec(25),
    {
        Mode::Dec(25)
    }

    /// DEC private mode 40 (DECNCSM): allow column-mode changes without clearing on supporting terminals.
    #[verifier::allow_in_spec]
    pub fn no_clear_column() -> Mode
        returns
            Mode::Dec(40),
    {
        Mode::Dec(40)
    }

    /// DEC private mode 66 (DECNKM): keypad application/numeric behavior.
    #[verifier::allow_in_spec]
    pub fn numeric_keypad() -> Mode
        returns
            Mode::Dec(66),
    {
        Mode::Dec(66)
    }

    /// DEC private mode 67 (DECBKM): backarrow key sends backspace/delete according to set/reset state.
    #[verifier::allow_in_spec]
    pub fn backarrow_key() -> Mode
        returns
            Mode::Dec(67),
    {
        Mode::Dec(67)
    }

    /// DEC private mode 69 (DECLRMM): enables left/right margin interpretation for DECSLRM.
    #[verifier::allow_in_spec]
    pub fn left_right_margin() -> Mode
        returns
            Mode::Dec(69),
    {
        Mode::Dec(69)
    }

    /// DEC private mode 47: legacy alternate screen buffer.
    #[verifier::allow_in_spec]
    pub fn alt_screen_legacy() -> Mode
        returns
            Mode::Dec(47),
    {
        Mode::Dec(47)
    }

    /// DEC private mode 1000: report mouse button press/release events.
    #[verifier::allow_in_spec]
    pub fn mouse_normal() -> Mode
        returns
            Mode::Dec(1000),
    {
        Mode::Dec(1000)
    }

    /// DEC private mode 1001: highlight mouse tracking.
    #[verifier::allow_in_spec]
    pub fn mouse_highlight() -> Mode
        returns
            Mode::Dec(1001),
    {
        Mode::Dec(1001)
    }

    /// DEC private mode 1002: report button-motion mouse events.
    #[verifier::allow_in_spec]
    pub fn mouse_button() -> Mode
        returns
            Mode::Dec(1002),
    {
        Mode::Dec(1002)
    }

    /// DEC private mode 1003: report any-motion mouse events.
    #[verifier::allow_in_spec]
    pub fn mouse_any() -> Mode
        returns
            Mode::Dec(1003),
    {
        Mode::Dec(1003)
    }

    /// DEC private mode 1004: enable focus in/out reports (`ESC [ I` / `ESC [ O`).
    #[verifier::allow_in_spec]
    pub fn focus() -> Mode
        returns
            Mode::Dec(1004),
    {
        Mode::Dec(1004)
    }

    /// DEC private mode 1005: UTF-8 mouse coordinate encoding.
    #[verifier::allow_in_spec]
    pub fn mouse_utf8() -> Mode
        returns
            Mode::Dec(1005),
    {
        Mode::Dec(1005)
    }

    /// DEC private mode 1006: SGR mouse coordinate encoding.
    #[verifier::allow_in_spec]
    pub fn mouse_sgr() -> Mode
        returns
            Mode::Dec(1006),
    {
        Mode::Dec(1006)
    }

    /// DEC private mode 1015: alternate mouse coordinate encoding.
    #[verifier::allow_in_spec]
    pub fn mouse_urxvt() -> Mode
        returns
            Mode::Dec(1015),
    {
        Mode::Dec(1015)
    }

    /// DEC private mode 1016: SGR-pixel mouse coordinate encoding.
    #[verifier::allow_in_spec]
    pub fn mouse_sgr_pixel() -> Mode
        returns
            Mode::Dec(1016),
    {
        Mode::Dec(1016)
    }

    /// Alternate screen buffer (1047).
    #[verifier::allow_in_spec]
    pub fn alt_screen() -> Mode
        returns
            Mode::Dec(1047),
    {
        Mode::Dec(1047)
    }

    /// DEC private mode 1048: save/restore cursor around mode set/reset.
    #[verifier::allow_in_spec]
    pub fn save_cursor() -> Mode
        returns
            Mode::Dec(1048),
    {
        Mode::Dec(1048)
    }

    /// DEC private mode 1049: alternate screen buffer with cursor save/restore and clear semantics.
    #[verifier::allow_in_spec]
    pub fn alt_screen_save_cursor() -> Mode
        returns
            Mode::Dec(1049),
    {
        Mode::Dec(1049)
    }

    /// DEC private mode 2004: wrap pasted data in bracketed-paste delimiters.
    #[verifier::allow_in_spec]
    pub fn bracketed_paste() -> Mode
        returns
            Mode::Dec(2004),
    {
        Mode::Dec(2004)
    }

    /// DEC private mode 2026: synchronized output batching.
    #[verifier::allow_in_spec]
    pub fn synchronized_output() -> Mode
        returns
            Mode::Dec(2026),
    {
        Mode::Dec(2026)
    }

    /// DEC private mode 2027: Unicode core keyboard/input behavior on supporting terminals.
    #[verifier::allow_in_spec]
    pub fn unicode_core() -> Mode
        returns
            Mode::Dec(2027),
    {
        Mode::Dec(2027)
    }

    /// DEC private mode 2031: light/dark color-scheme notifications.
    #[verifier::allow_in_spec]
    pub fn light_dark() -> Mode
        returns
            Mode::Dec(2031),
    {
        Mode::Dec(2031)
    }

    /// DEC private mode 2033: terminal visibility reports.
    #[verifier::allow_in_spec]
    pub fn visibility_reports() -> Mode
        returns
            Mode::Dec(2033),
    {
        Mode::Dec(2033)
    }

    /// DEC private mode 2048: in-band resize reports.
    #[verifier::allow_in_spec]
    pub fn in_band_resize() -> Mode
        returns
            Mode::Dec(2048),
    {
        Mode::Dec(2048)
    }

    /// DEC private mode 9001: Win32-input reporting on supporting terminals.
    #[verifier::allow_in_spec]
    pub fn win32_input() -> Mode
        returns
            Mode::Dec(9001),
    {
        Mode::Dec(9001)
    }

    /// ANSI mode 2 (KAM): keyboard action mode.
    #[verifier::allow_in_spec]
    pub fn keyboard_action() -> Mode
        returns
            Mode::Ansi(2),
    {
        Mode::Ansi(2)
    }

    /// ANSI mode 4 (IRM): insert mode when set, replace mode when reset.
    #[verifier::allow_in_spec]
    pub fn insert() -> Mode
        returns
            Mode::Ansi(4),
    {
        Mode::Ansi(4)
    }

    /// ANSI mode 8 (BDSM): bidirectional-support mode.
    #[verifier::allow_in_spec]
    pub fn bidi_support() -> Mode
        returns
            Mode::Ansi(8),
    {
        Mode::Ansi(8)
    }

    /// ANSI mode 12 (SRM): send/receive mode, often associated with local echo behavior.
    #[verifier::allow_in_spec]
    pub fn send_receive() -> Mode
        returns
            Mode::Ansi(12),
    {
        Mode::Ansi(12)
    }

    /// ANSI mode 20 (LNM): line-feed/new-line handling mode.
    #[verifier::allow_in_spec]
    pub fn line_feed_new_line() -> Mode
        returns
            Mode::Ansi(20),
    {
        Mode::Ansi(20)
    }
}

/// Decoded state value from a mode report (`DECRPM` or the ANSI form).
#[derive(Debug, Clone, Copy, PartialEq, Eq, Hash, Structural)]
pub enum ModeSetting {
    /// Report value `0`: the terminal does not recognize the requested mode.
    NotRecognized,
    /// Report value `1`: the mode is currently set.
    CurrentlySet,
    /// Report value `2`: the mode is currently reset.
    Reset,
    /// Report value `3`: the mode is permanently set and cannot be reset.
    PermanentlySet,
    /// Report value `4`: the mode is permanently reset and cannot be set.
    PermanentlyReset,
}

/// The setting that a report value stands for.
pub open spec fn setting_of(v: int) -> ModeSetting {
    if v == 1 {
        ModeSetting::CurrentlySet
    } else if v == 2 {
        ModeSetting::Reset
    } else if v == 3 {
        ModeSetting::PermanentlySet
    } else if v == 4 {
        ModeSetting::PermanentlyReset
    } else {
        ModeSetting::NotRecognized
    }
}

impl ModeSetting {
    /// Convert a numeric mode-report value. Values `1..=4` map to their defined
    /// states; every other value maps to [`ModeSetting::NotRecognized`].
    pub fn from_value(v: u16) -> (r: Self)
        ensures
            r == setting_of(v as int),
    {
        match v {
            1 => ModeSetting::CurrentlySet,
            2 => ModeSetting::Reset,
            3 => ModeSetting::PermanentlySet,
            4 => ModeSetting::PermanentlyReset,
            _ => ModeSetting::NotRecognized,
        }
    }

    /// The numeric value used in mode reports.
    pub open spec fn spec_value(self) -> u16 {
        match self {
            ModeSetting::NotRecognized => 0,
            ModeSetting::CurrentlySet => 1,
            ModeSetting::Reset => 2,
            ModeSetting::PermanentlySet => 3,
            ModeSetting::PermanentlyReset => 4,
        }
    }

    /// Return the numeric value used in mode reports.
    pub fn value(self) -> (r: u16)
        ensures
            r == self.spec_value(),
    {
        match self {
            ModeSetting::NotRecognized => 0,
            ModeSetting::CurrentlySet => 1,
            ModeSetting::Reset => 2,
            ModeSetting::PermanentlySet => 3,
            ModeSetting::PermanentlyReset => 4,
        }
    }

    /// Return `true` for [`ModeSetting::CurrentlySet`] and [`ModeSetting::PermanentlySet`].
    pub fn is_set(self) -> (r: bool)
        ensures
            r == (self is CurrentlySet || self is PermanentlySet),
    {
        matches!(self, ModeSetting::CurrentlySet | ModeSetting::PermanentlySet)
    }

    /// Return `true` for [`ModeSetting::Reset`] and [`ModeSetting::PermanentlyReset`].
    pub fn is_reset(self) -> (r: bool)
        ensures
            r == (self is Reset || self is PermanentlyReset),
    {
        matches!(self, ModeSetting::Reset | ModeSetting::PermanentlyReset)
    }

    /// Return whether the terminal recognized the mode.
    pub fn is_recognized(self) -> (r: bool)
        ensures
            r == !(self is NotRecognized),
    {
        !matches!(self, ModeSetting::NotRecognized)
    }

    /// Return whether the mode is permanently fixed and cannot be toggled.
    pub fn is_permanent(self) -> (r: bool)
        ensures
            r == (self is PermanentlySet || self is PermanentlyReset),
    {
        matches!(self, ModeSetting::PermanentlySet | ModeSetting::PermanentlyReset)
    }

    /// Whether the host can use the mode: recognized, and not permanently reset.
    pub open spec fn spec_is_available(self) -> bool {
        !(self is NotRecognized) && !(self is PermanentlyReset)
    }

    /// Return whether the mode can actually be used by the host.
    ///
    /// A permanently reset mode is recognized but can never be set, so the
    /// feature it gates is unavailable. Prefer this over
    /// [`is_recognized`](Self::is_recognized) when deciding whether a capability
    /// can be relied upon.
    pub fn is_available(self) -> (r: bool)
        ensures
            r == self.spec_is_available(),
    {
        matches!(self, ModeSetting::CurrentlySet | ModeSetting::Reset | ModeSetting::PermanentlySet)
    }

    /// Human-readable label of the setting.
    pub open spec fn spec_label(self) -> Seq<char> {
        match self {
            ModeSetting::NotRecognized => "not recognized"@,
            ModeSetting::CurrentlySet => "set"@,
            ModeSetting::Reset => "reset"@,
            ModeSetting::PermanentlySet => "permanently set"@,
            ModeSetting::PermanentlyReset => "permanently reset"@,
        }
    }

    /// Return the human-readable label of the setting.
    pub fn label(self) -> (r: String)
        ensures
            r@ == self.spec_label(),
    {
        match self {
            ModeSetting::NotRecognized => "not recognized".to_owned(),
            ModeSetting::CurrentlySet => "set".to_owned(),
            ModeSetting::Reset => "reset".to_owned(),
            ModeSetting::PermanentlySet => "permanently set".to_owned(),
            ModeSetting::PermanentlyReset => "permanently reset".to_owned(),
        }
    }
}

/// The numbers of the DEC modes (`dec`) or of the ANSI modes (`!dec`) of
/// `modes`, in order.
pub open spec fn mode_numbers(modes: Seq<Mode>, dec: bool) -> Seq<u16>
    decreases modes.len(),
{
    if modes.len() == 0 {
        Seq::empty()
    } else {
        let before = mode_numbers(modes.drop_last(), dec);
        match modes.last() {
            Mode::Dec(n) => if dec {
                before.push(n)
            } else {
                before
            },
            Mode::Ansi(n) => if dec {
                before
            } else {
                before.push(n)
            },
        }
    }
}

/// Decimal numbers joined by `;`.
pub open spec fn joined(numbers: Seq<u16>) -> Seq<u8>
    decreases numbers.len(),
{
    if numbers.len() == 0 {
        Seq::empty()
    } else if numbers.len() == 1 {
        digits(numbers[0] as nat)
    } else {
        joined(numbers.drop_last()) + ";".spec_bytes() + digits(numbers.last() as nat)
    }
}

/// One `CSI <prefix> n;n;… <final>` sequence, or nothing for no numbers.
pub open spec fn number_sequence(prefix: Seq<u8>, numbers: Seq<u16>, final_byte: u8) -> Seq<u8> {
    if numbers.len() == 0 {
        Seq::empty()
    } else {
        prefix + joined(numbers) + seq![final_byte]
    }
}

/// What set (`h`) or reset (`l`) of `modes` writes: one DEC and one ANSI
/// sequence, each only when it has a mode to carry.
pub open spec fn mode_sequence(modes: Seq<Mode>, final_byte: u8) -> Seq<u8> {
    number_sequence("\x1b[?".spec_bytes(), mode_numbers(modes, true), final_byte)
        + number_sequence("\x1b[".spec_bytes(), mode_numbers(modes, false), final_byte)
}

/// Final byte of set-mode sequences, `h`.
pub const SET_FINAL: u8 = 0x68;

/// Final byte of reset-mode sequences, `l`.
pub const RESET_FINAL: u8 = 0x6c;

/// The bytes that set one mode.
#[verifier::opaque]
pub open spec fn set_bytes(mode: Mode) -> Seq<u8> {
    mode_sequence(seq![mode], SET_FINAL)
}

/// The bytes that reset one mode.
#[verifier::opaque]
pub open spec fn reset_bytes(mode: Mode) -> Seq<u8> {
    mode_sequence(seq![mode], RESET_FINAL)
}

/// The bytes that introduce a sequence about `mode`: CSI, the private prefix of
/// DEC modes, and the mode number.
pub open spec fn mode_prefix(mode: Mode) -> Seq<u8> {
    match mode {
        Mode::Dec(n) => "\x1b[?".spec_bytes() + digits(n as nat),
        Mode::Ansi(n) => "\x1b[".spec_bytes() + digits(n as nat),
    }
}

/// The bytes of a mode request (DECRQM).
pub open spec fn request_bytes(mode: Mode) -> Seq<u8> {
    mode_prefix(mode) + "$p".spec_bytes()
}

/// The bytes of a mode report (DECRPM).
pub open spec fn report_bytes(mode: Mode, setting: ModeSetting) -> Seq<u8> {
    mode_prefix(mode) + ";".spec_bytes() + digits(setting.spec_value() as nat) + "$y".spec_bytes()
}

/// Set one or more modes.
///
/// DEC private modes emit `ESC [ ? ... h`; ANSI modes emit `ESC [ ... h`. If
/// `modes` contains both kinds, one DEC sequence and one ANSI sequence are
/// written. An empty slice emits nothing.
pub fn write_set_mode(w: &mut Vec<u8>, modes: &[Mode])
    ensures
        final(w)@ == old(w)@ + mode_sequence(modes@, SET_FINAL),
{
    write_mode_seq(w, modes, SET_FINAL);
}

/// Reset one or more modes.
///
/// DEC private modes emit `ESC [ ? ... l`; ANSI modes emit `ESC [ ... l`. Mixed
/// slices are split by mode kind. An empty slice emits nothing.
pub fn write_reset_mode(w: &mut Vec<u8>, modes: &[Mode])
    ensures
        final(w)@ == old(w)@ + mode_sequence(modes@, RESET_FINAL),
{
    write_mode_seq(w, modes, RESET_FINAL);
}

impl Mode {
    /// Write the set-mode sequence for this single mode.
    pub fn set(self, w: &mut Vec<u8>)
        ensures
            final(w)@ == old(w)@ + set_bytes(self),
    {
        let modes: [Mode; 1] = [self];
        write_set_mode(w, &modes);
        proof {
            reveal(set_bytes);
            assert(modes@ =~= seq![self]);
        }
    }

    /// Write the reset-mode sequence for this single mode.
    pub fn reset(self, w: &mut Vec<u8>)
        ensures
            final(w)@ == old(w)@ + reset_bytes(self),
    {
        let modes: [Mode; 1] = [self];
        write_reset_mode(w, &modes);
        proof {
            reveal(reset_bytes);
            assert(modes@ =~= seq![self]);
        }
    }

    /// Request this mode's current state with DECRQM.
    pub fn request(self, w: &mut Vec<u8>)
        ensures
            final(w)@ == old(w)@ + request_bytes(self),
    {
        write_request_mode(w, self);
    }
}

/// Append `prefix`, the numbers joined by `;`, and the final byte; nothing for
/// no numbers.
fn write_numbers(w: &mut Vec<u8>, prefix: &str, numbers: &Vec<u16>, final_byte: u8)
    ensures
        final(w)@ == old(w)@ + number_sequence(prefix.spec_bytes(), numbers@, final_byte),
{
    if numbers.len() == 0 {
        assert(w@ =~= old(w)@ + number_sequence(prefix.spec_bytes(), numbers@, final_byte));
        return;
    }
    append_str(w, prefix);
    let ghost start = w@;
    let mut i: usize = 0;
    while i < numbers.len()
        invariant
            0 <= i <= numbers@.len(),
            w@ == start + joined(numbers@.subrange(0, i as int)),
        decreases numbers@.len() - i,
    {
        proof {
            let next = numbers@.subrange(0, i + 1);
            assert(next.drop_last() =~= numbers@.subrange(0, i as int));
            assert(next.last() == numbers@[i as int]);
        }
        let ghost before = w@;
        if i > 0 {
            append_str(w, ";");
        }
        append_decimal(w, numbers[i] as u32);
        proof {
            let d = digits(numbers@[i as int] as nat);
            if i > 0 {
                assert(w@ =~= start + (joined(numbers@.subrange(0, i as int)) + ";".spec_bytes()
                    + d));
            } else {
                assert(w@ =~= start + d);
            }
        }
        i += 1;
    }
    assert(numbers@.subrange(0, numbers@.len() as int) =~= numbers@);
    w.push(final_byte);
    assert(w@ =~= old(w)@ + number_sequence(prefix.spec_bytes(), numbers@, final_byte));
}

fn write_mode_seq(w: &mut Vec<u8>, modes: &[Mode], final_byte: u8)
    ensures
        final(w)@ == old(w)@ + mode_sequence(modes@, final_byte),
{
    let mut ansi_modes: Vec<u16> = Vec::new();
    let mut dec_modes: Vec<u16> = Vec::new();
    let mut i: usize = 0;
    while i < modes.len()
        invariant
            0 <= i <= modes@.len(),
            dec_modes@ == mode_numbers(modes@.subrange(0, i as int), true),
            ansi_modes@ == mode_numbers(modes@.subrange(0, i as int), false),
        decreases modes@.len() - i,
    {
        proof {
            let next = modes@.subrange(0, i + 1);
            assert(next.drop_last() =~= modes@.subrange(0, i as int));
            assert(next.last() == modes@[i as int]);
        }
        match modes[i] {
            Mode::Ansi(n) => ansi_modes.push(n),
            Mode::Dec(n) => dec_modes.push(n),
        }
        i += 1;
    }
    assert(modes@.subrange(0, modes@.len() as int) =~= modes@);
    write_numbers(w, "\x1b[?", &dec_modes, final_byte);
    write_numbers(w, "\x1b[", &ansi_modes, final_byte);
    assert(w@ =~= old(w)@ + mode_sequence(modes@, final_byte));
}

fn write_mode_prefix(w: &mut Vec<u8>, mode: Mode)
    ensures
        final(w)@ == old(w)@ + mode_prefix(mode),
{
    match mode {
        Mode::Dec(n) => {
            append_str(w, "\x1b[?");
            append_decimal(w, n as u32);
        },
        Mode::Ansi(n) => {
            append_str(w, "\x1b[");
            append_decimal(w, n as u32);
        },
    }
    assert(w@ =~= old(w)@ + mode_prefix(mode));
}

/// Request a mode's state.
///
/// DEC modes emit `ESC [ ? <mode> $ p`; ANSI modes emit `ESC [ <mode> $ p`.
pub fn write_request_mode(w: &mut Vec<u8>, mode: Mode)
    ensures
        final(w)@ == old(w)@ + request_bytes(mode),
{
    write_mode_prefix(w, mode);
    append_str(w, "$p");
    assert(w@ =~= old(w)@ + request_bytes(mode));
}

/// Write a mode report.
///
/// DEC modes emit `ESC [ ? <mode> ; <setting> $ y`; ANSI modes emit
/// `ESC [ <mode> ; <setting> $ y`.
pub fn write_report_mode(w: &mut Vec<u8>, mode: Mode, setting: ModeSetting)
    ensures
        final(w)@ == old(w)@ + report_bytes(mode, setting),
{
    write_mode_prefix(w, mode);
    append_str(w, ";");
    append_decimal(w, setting.value() as u32);
    append_str(w, "$y");
    assert(w@ =~= old(w)@ + report_bytes(mode, setting));
}

/// Reading back the report value of a setting gives the setting.
pub proof fn law_setting_round_trip(setting: ModeSetting)
    ensures
        setting_of(setting.spec_value() as int) == setting,
{
}

/// No modes, no bytes.
pub proof fn law_no_modes_write_nothing(final_byte: u8)
    ensures
        mode_sequence(Seq::empty(), final_byte) == Seq::<u8>::empty(),
{
    assert(mode_sequence(Seq::empty(), final_byte) =~= Seq::<u8>::empty());
}

/// A mixed list is written as the sequence of its DEC modes followed by the
/// sequence of its ANSI modes, whatever the order in which they were listed.
pub proof fn law_modes_split_by_kind(modes: Seq<Mode>, dec: Seq<Mode>, ansi: Seq<Mode>, f: u8)
    requires
        mode_numbers(dec, true) == mode_numbers(modes, true),
        mode_numbers(dec, false).len() == 0,
        mode_numbers(ansi, false) == mode_numbers(modes, false),
        mode_numbers(ansi, true).len() == 0,
    ensures
        mode_sequence(modes, f) == mode_sequence(dec, f) + mode_sequence(ansi, f),
{
    assert(mode_sequence(modes, f) =~= mode_sequence(dec, f) + mode_sequence(ansi, f));
}

} // verus!
