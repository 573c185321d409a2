//! What the modes and settings that a [`Screen`](crate::screen::Screen) tracks are on the
//! terminal.

use crate::ansi::cursor::{cursor_style_bytes, pointer_shape_bytes, CursorStyle};
use crate::ansi::kitty::{set_keyboard_bytes, KittyKeyboardFlags};
use crate::ansi::mode::{mode_sequence, reset_bytes, set_bytes, Mode, RESET_FINAL, SET_FINAL};
use crate::ansi::osc::{osc_bare, osc_text, rgb_bytes, set_palette_bytes, ST};
use crate::ansi::query::{
    RESET_MODIFY_OTHER_KEYS, SET_MODIFY_OTHER_KEYS_1, SET_MODIFY_OTHER_KEYS_2,
};
use crate::bytes::{
    digits, equals_byte, lemma_decimal_of_digits, lemma_first_from_is, lemma_split_append,
    lemma_split_one, ESC,
};
use crate::color::Color;
use crate::event::decode::sequences::{lemma_before_after, lemma_digit_bytes};
use crate::event::decode::strings::occurs;
use crate::event::ModifyOtherKeysMode;
use crate::screen::display::{
    law_mode_sequence_switches_modes, law_reset_mode_resets_mode, law_set_mode_sets_mode,
    lemma_output_literals, modes_switched,
};
use crate::screen::modes::{
    all_mouse_modes, background_color_set, bracketed_paste_set, color_bytes,
    color_scheme_updates_set, cursor_color_set, cursor_styled, focus_events_set,
    foreground_color_set, icon_name_set, in_band_resize_set, modify_other_keys_bytes,
    modify_other_keys_set, mouse_disabled, mouse_modes, mouse_turned_on, palette_cleared,
    palette_color_reset, palette_color_set, pointer_shape_set, title_set,
    tracked_title, visibility_reports_set, window_title_set,
};
use crate::screen::state::{MouseTracking, StateView};
use crate::screen::surface::{lemma_plain_encoding, printable_text};
use crate::screen::terminal::{
    lemma_fed_append, lemma_fed_command, lemma_fed_sequence, Settings, Terminal,
};
use crate::screen::{
    cursor_visibility_set, grapheme_clusters_set, kitty_keyboard_set, staged, ScreenView,
};
use vstd::prelude::*;
use vstd::string::*;
use vstd::utf8::encode_utf8;

verus! {

/// Whether the modes of a terminal are those that `st` holds.
pub open spec fn modes_match(modes: Set<Mode>, st: StateView) -> bool {
    let motion = st.mouse is Some && st.mouse->0.motion;
    let pixels = st.mouse is Some && st.mouse->0.pixels;
    &&& modes.contains(Mode::Dec(25)) == st.cursor_visible
    &&& modes.contains(Mode::Dec(1004)) == st.focus_events
    &&& modes.contains(Mode::Dec(1049)) == st.alt_screen
    &&& modes.contains(Mode::Dec(2004)) == st.bracketed_paste
    &&& modes.contains(Mode::Dec(2027)) == st.grapheme_clusters
    &&& modes.contains(Mode::Dec(2031)) == st.color_scheme_updates
    &&& modes.contains(Mode::Dec(2033)) == st.visibility_reports
    &&& modes.contains(Mode::Dec(2048)) == st.in_band_resize
    &&& !modes.contains(Mode::Dec(9))
    &&& modes.contains(Mode::Dec(1000)) == st.mouse is Some
    &&& modes.contains(Mode::Dec(1002)) == st.mouse is Some
    &&& modes.contains(Mode::Dec(1003)) == motion
    &&& modes.contains(Mode::Dec(1006)) == st.mouse is Some
    &&& modes.contains(Mode::Dec(1016)) == pixels
}

/// The number of a cursor style.
pub open spec fn style_number(style: CursorStyle) -> int {
    match style {
        CursorStyle::Default => 0,
        CursorStyle::BlinkingBlock => 1,
        CursorStyle::SteadyBlock => 2,
        CursorStyle::BlinkingUnderline => 3,
        CursorStyle::SteadyUnderline => 4,
        CursorStyle::BlinkingBar => 5,
        CursorStyle::SteadyBar => 6,
    }
}

/// The number of a modifyOtherKeys mode.
pub open spec fn other_keys_number(mode: ModifyOtherKeysMode) -> int {
    match mode {
        ModifyOtherKeysMode::Disabled => 0,
        ModifyOtherKeysMode::Mode1 => 1,
        ModifyOtherKeysMode::Mode2 => 2,
    }
}

/// The bytes of a text that overrides another one, which is empty by default.
pub open spec fn override_bytes(text: Option<Seq<char>>) -> Seq<u8> {
    match text {
        Some(text) => encode_utf8(text),
        None => Seq::empty(),
    }
}

/// Whether a dynamic color of the terminal is `color`, or the terminal's own.
pub open spec fn color_matches(colors: Map<int, Seq<u8>>, n: int, color: Option<Color>) -> bool {
    match color {
        Some(c) => colors.contains_key(n) && colors[n] == rgb_bytes(c),
        None => !colors.contains_key(n),
    }
}

/// Whether the palette of the terminal has these overrides, and no others.
pub open spec fn palette_matches(palette: Map<int, Seq<u8>>, colors: Map<u8, Color>) -> bool {
    forall|i: u8|
        #![trigger colors.contains_key(i)]
        #![trigger palette.contains_key(i as int)]
        palette.contains_key(i as int) == colors.contains_key(i) && (colors.contains_key(i)
            ==> palette[i as int] == rgb_bytes(colors[i]))
}

/// Whether the settings of a terminal are those that `st` holds.
#[verifier::opaque]
pub open spec fn settings_match(w: Settings, st: StateView) -> bool {
    &&& w.cursor_style == style_number(st.cursor_style)
    &&& w.other_keys == other_keys_number(st.modify_other_keys)
    &&& w.title == override_bytes(st.window_title)
    &&& w.icon == override_bytes(st.icon_name)
    &&& color_matches(w.colors, 10, st.foreground_color)
    &&& color_matches(w.colors, 11, st.background_color)
    &&& color_matches(w.colors, 12, st.cursor_color)
    &&& palette_matches(w.palette, st.palette)
    &&& w.pointer == (match st.pointer_shape {
        Some(name) => encode_utf8(name),
        None => "default".spec_bytes(),
    })
}

/// Whether the terminal that has been sent what `s` stages is set as `s` tracks it.
#[verifier::opaque]
pub open spec fn set_as_tracked(start: Terminal, s: ScreenView) -> bool {
    let t = start.fed(s.out);
    &&& t.pending.len() == 0
    &&& modes_match(t.modes, s.state)
    &&& settings_match(t.settings, s.state)
}

/// A single mode, switched.
proof fn lemma_switched(start: Terminal, s: ScreenView, mode: Mode, on: bool)
    requires
        start.fed(s.out).pending.len() == 0,
    ensures
        ({
            let t = start.fed(s.out);
            let bytes = if on {
                set_bytes(mode)
            } else {
                reset_bytes(mode)
            };
            start.fed(staged(s, bytes).out) == (Terminal {
                modes: if on {
                    t.modes.insert(mode)
                } else {
                    t.modes.remove(mode)
                },
                ..t
            })
        }),
{
    let t = start.fed(s.out);
    if on {
        lemma_fed_append(start, s.out, set_bytes(mode));
        law_set_mode_sets_mode(t, mode);
    } else {
        lemma_fed_append(start, s.out, reset_bytes(mode));
        law_reset_mode_resets_mode(t, mode);
    }
}

/// Switching a mode on or off leaves the terminal set as it is tracked: that mode is as it was
/// asked for, and every other one as it was.
pub proof fn law_switches_are_tracked(start: Terminal, s: ScreenView, on: bool)
    requires
        set_as_tracked(start, s),
    ensures
        set_as_tracked(start, bracketed_paste_set(s, on)),
        set_as_tracked(start, focus_events_set(s, on)),
        set_as_tracked(start, color_scheme_updates_set(s, on)),
        set_as_tracked(start, in_band_resize_set(s, on)),
        set_as_tracked(start, visibility_reports_set(s, on)),
        set_as_tracked(start, grapheme_clusters_set(s, on)),
        set_as_tracked(start, cursor_visibility_set(s, on)),
        bracketed_paste_set(s, on).state == (StateView { bracketed_paste: on, ..s.state }),
        focus_events_set(s, on).state == (StateView { focus_events: on, ..s.state }),
        color_scheme_updates_set(s, on).state == (StateView {
            color_scheme_updates: on,
            ..s.state
        }),
        in_band_resize_set(s, on).state == (StateView { in_band_resize: on, ..s.state }),
        visibility_reports_set(s, on).state == (StateView { visibility_reports: on, ..s.state }),
        grapheme_clusters_set(s, on).state == (StateView { grapheme_clusters: on, ..s.state }),
        cursor_visibility_set(s, on).state == (StateView { cursor_visible: on, ..s.state }),
{
    lemma_bracketed_paste_set(start, s, on);
    lemma_focus_events_set(start, s, on);
    lemma_color_scheme_updates_set(start, s, on);
    lemma_in_band_resize_set(start, s, on);
    lemma_visibility_reports_set(start, s, on);
    lemma_grapheme_clusters_set(start, s, on);
    lemma_cursor_visibility_set(start, s, on);
}

/// Bracketed paste.
proof fn lemma_bracketed_paste_set(start: Terminal, s: ScreenView, on: bool)
    requires
        set_as_tracked(start, s),
    ensures
        set_as_tracked(start, bracketed_paste_set(s, on)),
{
    reveal(set_as_tracked);
    let st = StateView { bracketed_paste: on, ..s.state };
    lemma_switched(start, s, Mode::bracketed_paste(), on);
    lemma_same_settings(start.fed(s.out).settings, s.state, st);
}

/// Focus reporting.
proof fn lemma_focus_events_set(start: Terminal, s: ScreenView, on: bool)
    requires
        set_as_tracked(start, s),
    ensures
        set_as_tracked(start, focus_events_set(s, on)),
{
    reveal(set_as_tracked);
    let st = StateView { focus_events: on, ..s.state };
    lemma_switched(start, s, Mode::focus(), on);
    lemma_same_settings(start.fed(s.out).settings, s.state, st);
}

/// Color-scheme updates.
proof fn lemma_color_scheme_updates_set(start: Terminal, s: ScreenView, on: bool)
    requires
        set_as_tracked(start, s),
    ensures
        set_as_tracked(start, color_scheme_updates_set(s, on)),
{
    reveal(set_as_tracked);
    let st = StateView { color_scheme_updates: on, ..s.state };
    lemma_switched(start, s, Mode::light_dark(), on);
    lemma_same_settings(start.fed(s.out).settings, s.state, st);
}

/// In-band resize.
proof fn lemma_in_band_resize_set(start: Terminal, s: ScreenView, on: bool)
    requires
        set_as_tracked(start, s),
    ensures
        set_as_tracked(start, in_band_resize_set(s, on)),
{
    reveal(set_as_tracked);
    let st = StateView { in_band_resize: on, ..s.state };
    lemma_switched(start, s, Mode::in_band_resize(), on);
    lemma_same_settings(start.fed(s.out).settings, s.state, st);
}

/// Visibility reports.
proof fn lemma_visibility_reports_set(start: Terminal, s: ScreenView, on: bool)
    requires
        set_as_tracked(start, s),
    ensures
        set_as_tracked(start, visibility_reports_set(s, on)),
{
    reveal(set_as_tracked);
    let st = StateView { visibility_reports: on, ..s.state };
    lemma_switched(start, s, Mode::visibility_reports(), on);
    lemma_same_settings(start.fed(s.out).settings, s.state, st);
}

/// Grapheme clusters.
proof fn lemma_grapheme_clusters_set(start: Terminal, s: ScreenView, on: bool)
    requires
        set_as_tracked(start, s),
    ensures
        set_as_tracked(start, grapheme_clusters_set(s, on)),
{
    reveal(set_as_tracked);
    let st = StateView { grapheme_clusters: on, ..s.state };
    lemma_switched(start, s, Mode::unicode_core(), on);
    lemma_same_settings(start.fed(s.out).settings, s.state, st);
}

/// The visibility of the cursor.
proof fn lemma_cursor_visibility_set(start: Terminal, s: ScreenView, on: bool)
    requires
        set_as_tracked(start, s),
    ensures
        set_as_tracked(start, cursor_visibility_set(s, on)),
{
    reveal(set_as_tracked);
    let st = StateView { cursor_visible: on, ..s.state };
    lemma_switched(start, s, Mode::cursor_visible(), on);
    lemma_same_settings(start.fed(s.out).settings, s.state, st);
}

/// Settings match a state that differs in its modes alone.
pub proof fn lemma_same_settings(w: Settings, st: StateView, other: StateView)
    requires
        settings_match(w, st),
        other.cursor_style == st.cursor_style,
        other.modify_other_keys == st.modify_other_keys,
        other.window_title == st.window_title,
        other.icon_name == st.icon_name,
        other.foreground_color == st.foreground_color,
        other.background_color == st.background_color,
        other.cursor_color == st.cursor_color,
        other.palette == st.palette,
        other.pointer_shape == st.pointer_shape,
    ensures
        settings_match(w, other),
{
    reveal(settings_match);
}

/// Which modes are among the mouse modes.
proof fn lemma_all_mouse_modes(m: Mode)
    ensures
        all_mouse_modes().contains(m) == (m == Mode::Dec(9) || m == Mode::Dec(1000) || m
            == Mode::Dec(1002) || m == Mode::Dec(1003) || m == Mode::Dec(1006) || m == Mode::Dec(
            1016,
        )),
{
    let all = all_mouse_modes();
    assert(all[0] == Mode::Dec(9) && all[1] == Mode::Dec(1000) && all[2] == Mode::Dec(1002)
        && all[3] == Mode::Dec(1003) && all[4] == Mode::Dec(1006) && all[5] == Mode::Dec(1016));
}

/// Which modes a tracking request asks for.
pub proof fn lemma_mouse_modes(tracking: MouseTracking, m: Mode)
    ensures
        mouse_modes(tracking).contains(m) == (m == Mode::Dec(1000) || m == Mode::Dec(1002) || (
        tracking.motion && m == Mode::Dec(1003)) || m == Mode::Dec(1006) || (tracking.pixels && m
            == Mode::Dec(1016))),
{
    let some = mouse_modes(tracking);
    let k: int = if tracking.motion {
        3
    } else {
        2
    };
    assert(some[0] == Mode::Dec(1000) && some[1] == Mode::Dec(1002));
    assert(tracking.motion ==> some[2] == Mode::Dec(1003));
    assert(some[k] == Mode::Dec(1006));
    assert(tracking.pixels ==> some[k + 1] == Mode::Dec(1016));
}

/// The modes after a sequence for several of them.
proof fn lemma_several(t: Terminal, modes: Seq<Mode>, on: bool)
    requires
        t.pending.len() == 0,
    ensures
        ({
            let u = t.fed(
                mode_sequence(
                    modes,
                    if on {
                        SET_FINAL
                    } else {
                        RESET_FINAL
                    },
                ),
            );
            modes_switched(t, u, |m: Mode| modes.contains(m), on)
        }),
{
    law_mode_sequence_switches_modes(t, modes, on);
}

/// The mouse modes of the terminal.
pub open spec fn mouse_modes_are(
    t: Terminal,
    u: Terminal,
    mouse: Option<MouseTracking>,
) -> bool {
    &&& u == (Terminal { modes: u.modes, ..t })
    &&& forall|m: Mode| #[trigger]
        u.modes.contains(m) == (if m == Mode::Dec(1000) || m == Mode::Dec(1002) || m == Mode::Dec(
            1006,
        ) {
            mouse is Some
        } else if m == Mode::Dec(1003) {
            mouse is Some && mouse->0.motion
        } else if m == Mode::Dec(1016) {
            mouse is Some && mouse->0.pixels
        } else if m == Mode::Dec(9) {
            false
        } else {
            t.modes.contains(m)
        })
}

/// Every mouse mode off.
proof fn lemma_mouse_off(t: Terminal)
    requires
        t.pending.len() == 0,
    ensures
        mouse_modes_are(t, t.fed(mode_sequence(all_mouse_modes(), RESET_FINAL)), None),
{
    let u = t.fed(mode_sequence(all_mouse_modes(), RESET_FINAL));
    lemma_several(t, all_mouse_modes(), false);
    assert forall|m: Mode| #[trigger] u.modes.contains(m) == (if all_mouse_modes().contains(m) {
        false
    } else {
        t.modes.contains(m)
    }) by {}
    assert forall|m: Mode| #[trigger] u.modes.contains(m) == (if m == Mode::Dec(1000) || m
        == Mode::Dec(1002) || m == Mode::Dec(1006) || m == Mode::Dec(1003) || m == Mode::Dec(1016)
        || m == Mode::Dec(9) {
        false
    } else {
        t.modes.contains(m)
    }) by {
        lemma_all_mouse_modes(m);
    }
}

/// The modes of a request on, after all of them were off.
pub proof fn lemma_mouse_on(t: Terminal, tracking: MouseTracking)
    requires
        t.pending.len() == 0,
        mouse_modes_are(t, t, None),
    ensures
        mouse_modes_are(t, t.fed(mode_sequence(mouse_modes(tracking), SET_FINAL)), Some(tracking)),
{
    let u = t.fed(mode_sequence(mouse_modes(tracking), SET_FINAL));
    lemma_several(t, mouse_modes(tracking), true);
    assert forall|m: Mode| #[trigger] u.modes.contains(m) == (if mouse_modes(tracking).contains(
        m,
    ) {
        true
    } else {
        t.modes.contains(m)
    }) by {}
    assert forall|m: Mode| #[trigger] u.modes.contains(m) == (if m == Mode::Dec(1000) || m
        == Mode::Dec(1002) || m == Mode::Dec(1006) {
        true
    } else if m == Mode::Dec(1003) {
        tracking.motion
    } else if m == Mode::Dec(1016) {
        tracking.pixels
    } else if m == Mode::Dec(9) {
        false
    } else {
        t.modes.contains(m)
    }) by {
        lemma_mouse_modes(tracking, m);
        assert(t.modes.contains(m) == t.modes.contains(m));
    }
}

/// Mouse tracking is on the terminal what is tracked of it: no mode and no encoding but those
/// of the last request.
pub proof fn law_mouse_is_tracked(start: Terminal, s: ScreenView, tracking: MouseTracking)
    requires
        set_as_tracked(start, s),
    ensures
        set_as_tracked(start, mouse_turned_on(s, tracking)),
        set_as_tracked(start, mouse_disabled(s)),
        mouse_turned_on(s, tracking).state == (StateView { mouse: Some(tracking), ..s.state }),
        mouse_disabled(s).state == (StateView { mouse: None, ..s.state }),
{
    reveal(set_as_tracked);
    let t = start.fed(s.out);
    lemma_same_settings(t.settings, s.state, StateView { mouse: None, ..s.state });
    lemma_same_settings(t.settings, s.state, StateView { mouse: Some(tracking), ..s.state });
    let off = mode_sequence(all_mouse_modes(), RESET_FINAL);
    let on = mode_sequence(mouse_modes(tracking), SET_FINAL);
    lemma_fed_append(start, s.out, off);
    lemma_fed_append(start, s.out + off, on);
    lemma_mouse_off(t);
    let u = t.fed(off);
    assert(mouse_modes_are(u, u, None));
    lemma_mouse_on(u, tracking);
    assert(modes_match(u.modes, StateView { mouse: None, ..s.state }));
    let v = u.fed(on);
    assert(modes_match(v.modes, StateView { mouse: Some(tracking), ..s.state }));
}

/// The bytes of the literals that settings are made of.
proof fn lemma_setting_literals()
    ensures
        "\x1b]".spec_bytes() == seq![ESC, 0x5du8],
        "\x1b]22;".spec_bytes() == seq![ESC, 0x5du8, 0x32u8, 0x32u8, 0x3bu8],
        ST.spec_bytes() == seq![ESC, 0x5cu8],
        " q".spec_bytes() == seq![0x20u8, 0x71u8],
        "\x1b[=".spec_bytes() == seq![ESC, 0x5bu8, 0x3du8],
        ";1u".spec_bytes() == seq![0x3bu8, 0x31u8, 0x75u8],
        RESET_MODIFY_OTHER_KEYS.spec_bytes() == seq![ESC, 0x5bu8, 0x3eu8, 0x34u8, 0x6du8],
        SET_MODIFY_OTHER_KEYS_1.spec_bytes() == seq![
            ESC,
            0x5bu8,
            0x3eu8,
            0x34u8,
            0x3bu8,
            0x31u8,
            0x6du8,
        ],
        SET_MODIFY_OTHER_KEYS_2.spec_bytes() == seq![
            ESC,
            0x5bu8,
            0x3eu8,
            0x34u8,
            0x3bu8,
            0x32u8,
            0x6du8,
        ],
{
    broadcast use is_ascii_spec_bytes;

    reveal_strlit("\x1b]");
    reveal_strlit("\x1b]22;");
    reveal_strlit("\x1b\\");
    reveal_strlit(" q");
    reveal_strlit("\x1b[=");
    reveal_strlit(";1u");
    reveal_strlit("\x1b[>4m");
    reveal_strlit("\x1b[>4;1m");
    reveal_strlit("\x1b[>4;2m");
    assert("\x1b]".is_ascii());
    assert("\x1b]22;".is_ascii());
    assert(ST.is_ascii());
    assert(" q".is_ascii());
    assert("\x1b[=".is_ascii());
    assert(";1u".is_ascii());
    assert(RESET_MODIFY_OTHER_KEYS.is_ascii());
    assert(SET_MODIFY_OTHER_KEYS_1.is_ascii());
    assert(SET_MODIFY_OTHER_KEYS_2.is_ascii());
    assert("\x1b]".spec_bytes() =~= seq![ESC, 0x5du8]);
    assert("\x1b]22;".spec_bytes() =~= seq![ESC, 0x5du8, 0x32u8, 0x32u8, 0x3bu8]);
    assert(ST.spec_bytes() =~= seq![ESC, 0x5cu8]);
    assert(" q".spec_bytes() =~= seq![0x20u8, 0x71u8]);
    assert("\x1b[=".spec_bytes() =~= seq![ESC, 0x5bu8, 0x3du8]);
    assert(";1u".spec_bytes() =~= seq![0x3bu8, 0x31u8, 0x75u8]);
    assert(RESET_MODIFY_OTHER_KEYS.spec_bytes() =~= seq![ESC, 0x5bu8, 0x3eu8, 0x34u8, 0x6du8]);
    assert(SET_MODIFY_OTHER_KEYS_1.spec_bytes() =~= seq![
        ESC,
        0x5bu8,
        0x3eu8,
        0x34u8,
        0x3bu8,
        0x31u8,
        0x6du8,
    ]);
    assert(SET_MODIFY_OTHER_KEYS_2.spec_bytes() =~= seq![
        ESC,
        0x5bu8,
        0x3eu8,
        0x34u8,
        0x3bu8,
        0x32u8,
        0x6du8,
    ]);
}

/// Whether `s` holds no `ESC`.
pub open spec fn unescaped(s: Seq<u8>) -> bool {
    forall|i: int| 0 <= i < s.len() ==> #[trigger] s[i] != ESC
}

/// What a command with a text does.
pub proof fn lemma_command(t: Terminal, n: nat, text: Seq<u8>)
    requires
        t.pending.len() == 0,
        unescaped(text),
        n < 4 || n > 12 || text.len() == 0 || text.last() != 0x3f,
    ensures
        t.fed(osc_text(n, text)) == (Terminal { settings: t.commanded(n, text), ..t }),
{
    let p = digits(n) + seq![0x3bu8] + text;
    lemma_setting_literals();
    lemma_output_literals();
    lemma_digit_bytes(n);
    lemma_decimal_of_digits(n);
    lemma_before_after(digits(n), text, 0x3b);
    assert forall|i: int| 0 <= i < p.len() implies #[trigger] p[i] != ESC by {
        let k = digits(n).len();
        if i < k {
            assert(p[i] == digits(n)[i]);
        } else if i > k {
            assert(p[i] == text[i - k - 1]);
        }
    }
    lemma_fed_command(t, p);
    assert(osc_text(n, text) =~= seq![ESC, 0x5du8] + p + seq![ESC, 0x5cu8]);
}

/// What a command without a text does.
pub proof fn lemma_bare_command(t: Terminal, n: nat)
    requires
        t.pending.len() == 0,
    ensures
        t.fed(osc_bare(n)) == (Terminal { settings: t.commanded_bare(n), ..t }),
{
    let p = digits(n);
    lemma_setting_literals();
    lemma_digit_bytes(n);
    lemma_decimal_of_digits(n);
    lemma_first_from_is(p, 0, p.len() as int, equals_byte(0x3b));
    assert(!occurs(p, 0x3b));
    lemma_fed_command(t, p);
    assert(osc_bare(n) =~= seq![ESC, 0x5du8] + p + seq![ESC, 0x5cu8]);
}

/// The bytes of a color hold neither `ESC` nor `;`, and do not ask.
pub proof fn lemma_color_bytes(color: Color)
    ensures
        unescaped(rgb_bytes(color)),
        rgb_bytes(color).len() > 0,
        rgb_bytes(color).last() != 0x3f,
{
    broadcast use is_ascii_spec_bytes;

    reveal_strlit("rgb:");
    reveal_strlit("/");
    assert("rgb:".is_ascii());
    assert("/".is_ascii());
    let s = rgb_bytes(color);
    assert("rgb:".spec_bytes() =~= seq![0x72u8, 0x67u8, 0x62u8, 0x3au8]);
    assert("/".spec_bytes() =~= seq![0x2fu8]);
}

/// Dynamic colors are on the terminal what is tracked of them, each its own.
pub proof fn law_colors_are_tracked(start: Terminal, s: ScreenView, color: Option<Color>)
    requires
        set_as_tracked(start, s),
    ensures
        set_as_tracked(start, foreground_color_set(s, color)),
        set_as_tracked(start, background_color_set(s, color)),
        set_as_tracked(start, cursor_color_set(s, color)),
        foreground_color_set(s, color).state == (StateView { foreground_color: color, ..s.state }),
        background_color_set(s, color).state == (StateView { background_color: color, ..s.state }),
        cursor_color_set(s, color).state == (StateView { cursor_color: color, ..s.state }),
{
    lemma_foreground(start, s, color);
    lemma_background(start, s, color);
    lemma_cursor_color(start, s, color);
}

/// The foreground color.
proof fn lemma_foreground(start: Terminal, s: ScreenView, color: Option<Color>)
    requires
        set_as_tracked(start, s),
    ensures
        set_as_tracked(start, foreground_color_set(s, color)),
{
    reveal(set_as_tracked);
    reveal(settings_match);
    lemma_color_sent(start, s, 10, color);
}

/// The background color.
proof fn lemma_background(start: Terminal, s: ScreenView, color: Option<Color>)
    requires
        set_as_tracked(start, s),
    ensures
        set_as_tracked(start, background_color_set(s, color)),
{
    reveal(set_as_tracked);
    reveal(settings_match);
    lemma_color_sent(start, s, 11, color);
}

/// The cursor color.
proof fn lemma_cursor_color(start: Terminal, s: ScreenView, color: Option<Color>)
    requires
        set_as_tracked(start, s),
    ensures
        set_as_tracked(start, cursor_color_set(s, color)),
{
    reveal(set_as_tracked);
    reveal(settings_match);
    lemma_color_sent(start, s, 12, color);
}

/// One dynamic color.
proof fn lemma_color_sent(start: Terminal, s: ScreenView, n: nat, color: Option<Color>)
    requires
        start.fed(s.out).pending.len() == 0,
        n == 10 || n == 11 || n == 12,
    ensures
        ({
            let t = start.fed(s.out);
            start.fed(s.out + color_bytes(n, color)) == (Terminal {
                settings: Settings {
                    colors: match color {
                        Some(c) => t.settings.colors.insert(n as int, rgb_bytes(c)),
                        None => t.settings.colors.remove(n as int),
                    },
                    ..t.settings
                },
                ..t
            })
        }),
{
    let t = start.fed(s.out);
    lemma_fed_append(start, s.out, color_bytes(n, color));
    match color {
        Some(c) => {
            lemma_color_bytes(c);
            lemma_command(t, n, rgb_bytes(c));
        },
        None => {
            lemma_bare_command(t, 100 + n);
        },
    }
}

/// One palette color.
pub proof fn lemma_palette_set(t: Terminal, index: u8, color: Color)
    requires
        t.pending.len() == 0,
    ensures
        t.fed(set_palette_bytes(index, color)) == (Terminal {
            settings: Settings {
                palette: t.settings.palette.insert(index as int, rgb_bytes(color)),
                ..t.settings
            },
            ..t
        }),
{
    let d = digits(index as nat);
    let text = d + seq![0x3bu8] + rgb_bytes(color);
    lemma_output_literals();
    lemma_color_bytes(color);
    lemma_digit_bytes(index as nat);
    lemma_decimal_of_digits(index as nat);
    lemma_before_after(d, rgb_bytes(color), 0x3b);
    assert forall|i: int| 0 <= i < text.len() implies #[trigger] text[i] != ESC by {
        if i < d.len() {
            assert(text[i] == d[i]);
        } else if i > d.len() {
            assert(text[i] == rgb_bytes(color)[i - d.len() - 1]);
        }
    }
    assert(text.last() == rgb_bytes(color).last());
    lemma_command(t, 4, text);
}

/// The palette of the terminal has the overrides that are tracked.
pub proof fn law_palette_is_tracked(start: Terminal, s: ScreenView, index: u8, color: Color)
    requires
        set_as_tracked(start, s),
    ensures
        set_as_tracked(start, palette_color_set(s, index, color)),
        set_as_tracked(start, palette_color_reset(s, index)),
        set_as_tracked(start, palette_cleared(s)),
        palette_color_set(s, index, color).state.palette.contains_key(index),
        palette_color_set(s, index, color).state.palette[index] == color,
        !palette_color_reset(s, index).state.palette.contains_key(index),
        palette_cleared(s).state.palette == Map::<u8, Color>::empty(),
{
    lemma_palette_set_tracked(start, s, index, color);
    lemma_palette_reset_tracked(start, s, index);
    lemma_palette_cleared_tracked(start, s);
    assert(s.state.palette.is_empty() ==> s.state.palette =~= Map::empty());
}

/// A palette override.
proof fn lemma_palette_set_tracked(start: Terminal, s: ScreenView, index: u8, color: Color)
    requires
        set_as_tracked(start, s),
    ensures
        set_as_tracked(start, palette_color_set(s, index, color)),
{
    reveal(set_as_tracked);
    reveal(settings_match);
    lemma_fed_append(start, s.out, set_palette_bytes(index, color));
    lemma_palette_set(start.fed(s.out), index, color);
    lemma_palette_insert(start.fed(s.out).settings.palette, s.state.palette, index, color);
}

/// A palette override taken back.
proof fn lemma_palette_reset_tracked(start: Terminal, s: ScreenView, index: u8)
    requires
        set_as_tracked(start, s),
    ensures
        set_as_tracked(start, palette_color_reset(s, index)),
{
    reveal(set_as_tracked);
    reveal(settings_match);
    let d = digits(index as nat);
    lemma_digit_bytes(index as nat);
    lemma_decimal_of_digits(index as nat);
    lemma_fed_append(start, s.out, osc_text(104, d));
    lemma_command(start.fed(s.out), 104, d);
    lemma_palette_remove(start.fed(s.out).settings.palette, s.state.palette, index);
}

/// Every palette override taken back.
proof fn lemma_palette_cleared_tracked(start: Terminal, s: ScreenView)
    requires
        set_as_tracked(start, s),
    ensures
        set_as_tracked(start, palette_cleared(s)),
{
    reveal(set_as_tracked);
    reveal(settings_match);
    lemma_fed_append(start, s.out, osc_bare(104));
    lemma_bare_command(start.fed(s.out), 104);
}

/// Overrides with one more.
pub proof fn lemma_palette_insert(
    palette: Map<int, Seq<u8>>,
    colors: Map<u8, Color>,
    index: u8,
    color: Color,
)
    requires
        palette_matches(palette, colors),
    ensures
        palette_matches(
            palette.insert(index as int, rgb_bytes(color)),
            colors.insert(index, color),
        ),
{
}

/// Overrides with one less.
proof fn lemma_palette_remove(palette: Map<int, Seq<u8>>, colors: Map<u8, Color>, index: u8)
    requires
        palette_matches(palette, colors),
    ensures
        palette_matches(palette.remove(index as int), colors.remove(index)),
{
}

/// The cursor style.
pub proof fn lemma_style(t: Terminal, style: CursorStyle)
    requires
        t.pending.len() == 0,
    ensures
        t.fed(cursor_style_bytes(style)) == (Terminal {
            settings: Settings { cursor_style: style_number(style), ..t.settings },
            ..t
        }),
{
    let n = style.number() as nat;
    let params = digits(n) + seq![0x20u8];
    lemma_setting_literals();
    lemma_output_literals();
    lemma_digit_bytes(n);
    lemma_decimal_of_digits(n);
    assert forall|i: int| 0 <= i < params.len() implies 0x20 <= #[trigger] params[i] <= 0x3f by {
        if i < digits(n).len() {
            assert(params[i] == digits(n)[i]);
        }
    }
    assert(params[0] == digits(n)[0]);
    assert(params.drop_last() =~= digits(n));
    lemma_fed_sequence(t, params, 0x71);
    assert(cursor_style_bytes(style) =~= seq![ESC, 0x5bu8] + params + seq![0x71u8]);
}

/// The modifyOtherKeys mode.
pub proof fn lemma_other_keys(t: Terminal, mode: ModifyOtherKeysMode)
    requires
        t.pending.len() == 0,
    ensures
        t.fed(modify_other_keys_bytes(mode)) == (Terminal {
            settings: Settings { other_keys: other_keys_number(mode), ..t.settings },
            ..t
        }),
{
    lemma_setting_literals();
    let four = seq![0x34u8];
    let (n, tail) = match mode {
        ModifyOtherKeysMode::Disabled => (0nat, Seq::<u8>::empty()),
        ModifyOtherKeysMode::Mode1 => (1nat, seq![0x3bu8, 0x31u8]),
        ModifyOtherKeysMode::Mode2 => (2nat, seq![0x3bu8, 0x32u8]),
    };
    let params = seq![0x3eu8] + four + tail;
    lemma_fed_sequence(t, params, 0x6d);
    assert(modify_other_keys_bytes(mode) =~= seq![ESC, 0x5bu8] + params + seq![0x6du8]);
    lemma_split_one(four, 0x3b);
    if mode is Disabled {
        assert(params.drop_first() =~= four);
    } else {
        lemma_digit_bytes(n);
        lemma_decimal_of_digits(n);
        assert(digits(n) =~= seq![(0x30 + n) as u8]);
        assert(params.drop_first() =~= four + seq![0x3bu8] + digits(n));
        lemma_split_append(four, digits(n), 0x3b);
    }
}

/// The pointer shape.
pub proof fn lemma_pointer(t: Terminal, shape: Seq<u8>)
    requires
        t.pending.len() == 0,
        unescaped(shape),
    ensures
        t.fed(pointer_shape_bytes(shape)) == (Terminal {
            settings: Settings { pointer: shape, ..t.settings },
            ..t
        }),
{
    lemma_setting_literals();
    lemma_output_literals();
    assert(digits(22) =~= seq![0x32u8, 0x32u8]) by {
        reveal_with_fuel(digits, 2);
    }
    lemma_command(t, 22, shape);
    assert("\x1b\\".spec_bytes() == ST.spec_bytes());
    assert(pointer_shape_bytes(shape) =~= osc_text(22, shape));
}

/// The cursor style and the modifyOtherKeys mode are on the terminal what is tracked of them.
pub proof fn law_numbers_are_tracked(
    start: Terminal,
    s: ScreenView,
    style: CursorStyle,
    mode: ModifyOtherKeysMode,
)
    requires
        set_as_tracked(start, s),
    ensures
        set_as_tracked(start, cursor_styled(s, style)),
        set_as_tracked(start, modify_other_keys_set(s, mode)),
        cursor_styled(s, style).state == (StateView { cursor_style: style, ..s.state }),
        modify_other_keys_set(s, mode).state == (StateView { modify_other_keys: mode, ..s.state }),
{
    reveal(set_as_tracked);
    reveal(settings_match);
    let t = start.fed(s.out);
    lemma_fed_append(start, s.out, cursor_style_bytes(style));
    lemma_style(t, style);
    lemma_fed_append(start, s.out, modify_other_keys_bytes(mode));
    lemma_other_keys(t, mode);
}

/// The window title and the icon name are on the terminal what is tracked of them, for texts
/// that print. Each is set without the other, or both at once.
pub proof fn law_titles_are_tracked(start: Terminal, s: ScreenView, text: Seq<char>)
    requires
        set_as_tracked(start, s),
        printable_text(text),
    ensures
        set_as_tracked(start, title_set(s, text)),
        set_as_tracked(start, window_title_set(s, text)),
        set_as_tracked(start, icon_name_set(s, text)),
        title_set(s, text).state.window_title == tracked_title(text),
        title_set(s, text).state.icon_name == tracked_title(text),
        window_title_set(s, text).state.window_title == tracked_title(text),
        window_title_set(s, text).state.icon_name == s.state.icon_name,
        icon_name_set(s, text).state.icon_name == tracked_title(text),
        icon_name_set(s, text).state.window_title == s.state.window_title,
{
    lemma_title_tracked(start, s, text);
    lemma_window_title_tracked(start, s, text);
    lemma_icon_name_tracked(start, s, text);
}

/// The pointer shape is on the terminal what is tracked of it, for names that print.
pub proof fn law_pointer_shape_is_tracked(
    start: Terminal,
    s: ScreenView,
    shape: Option<Seq<char>>,
)
    requires
        set_as_tracked(start, s),
        shape is Some ==> printable_text(shape->0),
    ensures
        set_as_tracked(start, pointer_shape_set(s, shape)),
        pointer_shape_set(s, shape).state.pointer_shape == shape,
{
    lemma_pointer_tracked(start, s, shape);
}

/// What is tracked of a title is what is sent.
proof fn lemma_tracked_title(text: Seq<char>)
    ensures
        override_bytes(tracked_title(text)) == encode_utf8(text),
{
    if text.len() == 0 {
        assert(encode_utf8(text) =~= Seq::<u8>::empty());
    }
}

/// Title and icon name.
proof fn lemma_title_tracked(start: Terminal, s: ScreenView, text: Seq<char>)
    requires
        set_as_tracked(start, s),
        printable_text(text),
    ensures
        set_as_tracked(start, title_set(s, text)),
{
    reveal(set_as_tracked);
    reveal(settings_match);
    lemma_plain_encoding(text);
    lemma_tracked_title(text);
    lemma_fed_append(start, s.out, osc_text(0, encode_utf8(text)));
    lemma_command(start.fed(s.out), 0, encode_utf8(text));
}

/// The window title.
proof fn lemma_window_title_tracked(start: Terminal, s: ScreenView, text: Seq<char>)
    requires
        set_as_tracked(start, s),
        printable_text(text),
    ensures
        set_as_tracked(start, window_title_set(s, text)),
{
    reveal(set_as_tracked);
    reveal(settings_match);
    lemma_plain_encoding(text);
    lemma_tracked_title(text);
    lemma_fed_append(start, s.out, osc_text(2, encode_utf8(text)));
    lemma_command(start.fed(s.out), 2, encode_utf8(text));
}

/// The icon name.
proof fn lemma_icon_name_tracked(start: Terminal, s: ScreenView, text: Seq<char>)
    requires
        set_as_tracked(start, s),
        printable_text(text),
    ensures
        set_as_tracked(start, icon_name_set(s, text)),
{
    reveal(set_as_tracked);
    reveal(settings_match);
    lemma_plain_encoding(text);
    lemma_tracked_title(text);
    lemma_fed_append(start, s.out, osc_text(1, encode_utf8(text)));
    lemma_command(start.fed(s.out), 1, encode_utf8(text));
}

/// The pointer shape.
proof fn lemma_pointer_tracked(start: Terminal, s: ScreenView, shape: Option<Seq<char>>)
    requires
        set_as_tracked(start, s),
        shape is Some ==> printable_text(shape->0),
    ensures
        set_as_tracked(start, pointer_shape_set(s, shape)),
{
    reveal(set_as_tracked);
    reveal(settings_match);
    let name = match shape {
        Some(name) => {
            lemma_plain_encoding(name);
            encode_utf8(name)
        },
        None => {
            lemma_default_shape();
            "default".spec_bytes()
        },
    };
    lemma_fed_append(start, s.out, pointer_shape_bytes(name));
    lemma_pointer(start.fed(s.out), name);
}

/// The name of the default shape.
pub proof fn lemma_default_shape()
    ensures
        unescaped("default".spec_bytes()),
{
    broadcast use is_ascii_spec_bytes;

    reveal_strlit("default");
    assert("default".is_ascii());
}

/// The number of a set of keyboard enhancements.
pub open spec fn enhancements(f: KittyKeyboardFlags) -> int {
    (if f.disambiguate_escape_codes {
        1int
    } else {
        0
    }) + (if f.report_event_types {
        2int
    } else {
        0
    }) + (if f.report_alternate_keys {
        4int
    } else {
        0
    }) + (if f.report_all_keys_as_escape_codes {
        8int
    } else {
        0
    }) + (if f.report_associated_text {
        16int
    } else {
        0
    })
}

/// The keyboard enhancements that are set are those of the screen buffer that is shown, and the
/// other one keeps its own.
pub proof fn law_keyboard_is_set_on_buffer(
    start: Terminal,
    s: ScreenView,
    flags: KittyKeyboardFlags,
)
    requires
        set_as_tracked(start, s),
    ensures
        set_as_tracked(start, kitty_keyboard_set(s, flags)),
        ({
            let t = start.fed(s.out);
            let u = start.fed(kitty_keyboard_set(s, flags).out);
            &&& s.state.alt_screen ==> u.settings.alt_keyboard == enhancements(flags)
                && u.settings.keyboard == t.settings.keyboard
            &&& !s.state.alt_screen ==> u.settings.keyboard == enhancements(flags)
                && u.settings.alt_keyboard == t.settings.alt_keyboard
        }),
        kitty_keyboard_set(s, flags).state == (StateView { kitty_keyboard: flags, ..s.state }),
{
    reveal(set_as_tracked);
    reveal(settings_match);
    lemma_fed_append(start, s.out, set_keyboard_bytes(flags));
    lemma_keyboard(start.fed(s.out), flags);
}

/// The keyboard enhancements.
pub proof fn lemma_keyboard(t: Terminal, flags: KittyKeyboardFlags)
    requires
        t.pending.len() == 0,
    ensures
        t.fed(set_keyboard_bytes(flags)) == (Terminal {
            settings: if t.modes.contains(Mode::Dec(1049)) {
                Settings { alt_keyboard: enhancements(flags), ..t.settings }
            } else {
                Settings { keyboard: enhancements(flags), ..t.settings }
            },
            ..t
        }),
{
    let n = flags.spec_bits() as nat;
    let d = digits(n);
    let inner = d + seq![0x3bu8] + seq![0x31u8];
    let params = seq![0x3du8] + inner;
    lemma_setting_literals();
    lemma_digit_bytes(n);
    lemma_decimal_of_digits(n);
    assert(n == enhancements(flags));
    assert forall|i: int| 0 <= i < params.len() implies 0x20 <= #[trigger] params[i] <= 0x3f by {
        if 1 <= i <= d.len() {
            assert(params[i] == d[i - 1]);
        }
    }
    lemma_fed_sequence(t, params, 0x75);
    assert(set_keyboard_bytes(flags) =~= seq![ESC, 0x5bu8] + params + seq![0x75u8]);
    assert(params.drop_first() =~= inner);
    lemma_split_one(d, 0x3b);
    lemma_split_append(d, seq![0x31u8], 0x3b);
}

} // verus!
