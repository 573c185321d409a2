//! What the terminal is like when it is handed back, and when it is taken again.

use crate::ansi::cursor::{
    cuf_bytes, cup_bytes, cursor_style_bytes, pointer_shape_bytes, CursorStyle,
};
use crate::ansi::kitty::{set_keyboard_bytes, KittyKeyboardFlags};
use crate::ansi::mode::{mode_sequence, reset_bytes, set_bytes, Mode, RESET_FINAL, SET_FINAL};
use crate::ansi::osc::{osc_bare, osc_text, rgb_bytes, set_color_bytes, set_palette_bytes};
use crate::color::Color;
use crate::event::ModifyOtherKeysMode;
use crate::layout::Position;
use crate::screen::display::{
    law_cursor_forward_moves_right, law_cursor_position_places_cursor, law_cursor_up_moves_up,
    law_mode_sequence_switches_modes, law_reset_mode_resets_mode, law_set_mode_sets_mode,
    lemma_line_feed, lemma_return,
};
use crate::screen::modes::{
    cursor_at_bottom, if_held, modify_other_keys_bytes, mouse_modes, palette_bytes,
    render_set_up, render_torn_down, reset_staged, restore_staged, set_up, switch,
    title_reset_bytes, title_set_bytes, torn_down,
};
use crate::screen::renderer::{horizontal_bytes, line_feeds, moved, vertical_bytes, Pen};
use crate::screen::settings::{
    enhancements, lemma_bare_command, lemma_color_bytes, lemma_command, lemma_default_shape,
    lemma_keyboard, lemma_mouse_modes, lemma_mouse_on, lemma_other_keys, lemma_palette_insert,
    lemma_palette_set, lemma_pointer, lemma_same_settings, lemma_style, modes_match,
    mouse_modes_are, override_bytes, set_as_tracked, settings_match, unescaped,
};
use crate::screen::state::{no_modes, MouseTracking, StateView};
use crate::screen::surface::{lemma_plain_encoding, printable_text};
use crate::screen::terminal::{lemma_fed_append, Terminal};
use crate::screen::{alt_screen_set, cursor_sent, ScreenView};
use vstd::prelude::*;
use vstd::string::*;
use vstd::utf8::encode_utf8;

verus! {

/// Whether the modes and settings of a terminal are those that `st` holds.
#[verifier::opaque]
pub open spec fn matches(t: Terminal, st: StateView) -> bool {
    &&& t.pending.len() == 0
    &&& modes_match(t.modes, st)
    &&& settings_match(t.settings, st)
}

/// Bytes that are sent if something is held.
proof fn lemma_held(start: Terminal, out: Seq<u8>, held: bool, bytes: Seq<u8>)
    ensures
        start.fed(out + if_held(held, bytes)) == (if held {
            start.fed(out).fed(bytes)
        } else {
            start.fed(out)
        }),
{
    lemma_fed_append(start, out, bytes);
    if !held {
        assert(out + if_held(held, bytes) =~= out);
    }
}

/// Whether two states hold the same settings, so that they differ in modes alone.
pub open spec fn same_settings(a: StateView, b: StateView) -> bool {
    &&& b.cursor_style == a.cursor_style
    &&& b.modify_other_keys == a.modify_other_keys
    &&& b.window_title == a.window_title
    &&& b.icon_name == a.icon_name
    &&& b.foreground_color == a.foreground_color
    &&& b.background_color == a.background_color
    &&& b.cursor_color == a.cursor_color
    &&& b.palette == a.palette
    &&& b.pointer_shape == a.pointer_shape
}

/// A mode that is switched where it is held.
proof fn lemma_switch_step(
    start: Terminal,
    out: Seq<u8>,
    st: StateView,
    next: StateView,
    held: bool,
    mode: Mode,
    on: bool,
)
    requires
        matches(start.fed(out), st),
        same_settings(st, next),
        held && on ==> modes_match(start.fed(out).modes.insert(mode), next),
        held && !on ==> modes_match(start.fed(out).modes.remove(mode), next),
        !held ==> modes_match(start.fed(out).modes, next),
    ensures
        matches(start.fed(out + if_held(held, switch(mode, on))), next),
        start.fed(out + if_held(held, switch(mode, on))).settings == start.fed(out).settings,
{
    reveal(matches);
    let t = start.fed(out);
    lemma_held(start, out, held, switch(mode, on));
    lemma_same_settings(t.settings, st, next);
    if on {
        law_set_mode_sets_mode(t, mode);
    } else {
        law_reset_mode_resets_mode(t, mode);
    }
}

/// The cursor style.
proof fn lemma_style_step(
    start: Terminal,
    out: Seq<u8>,
    st: StateView,
    held: bool,
    style: CursorStyle,
)
    requires
        matches(start.fed(out), st),
        !held ==> st.cursor_style == style,
    ensures
        matches(
            start.fed(out + if_held(held, cursor_style_bytes(style))),
            StateView { cursor_style: style, ..st },
        ),
{
    reveal(matches);
    reveal(settings_match);
    lemma_held(start, out, held, cursor_style_bytes(style));
    lemma_style(start.fed(out), style);
}

/// The modifyOtherKeys mode.
proof fn lemma_other_keys_step(
    start: Terminal,
    out: Seq<u8>,
    st: StateView,
    held: bool,
    mode: ModifyOtherKeysMode,
)
    requires
        matches(start.fed(out), st),
        !held ==> st.modify_other_keys == mode,
    ensures
        matches(
            start.fed(out + if_held(held, modify_other_keys_bytes(mode))),
            StateView { modify_other_keys: mode, ..st },
        ),
{
    reveal(matches);
    reveal(settings_match);
    lemma_held(start, out, held, modify_other_keys_bytes(mode));
    lemma_other_keys(start.fed(out), mode);
}

/// The mouse modes of a request off again.
proof fn lemma_mouse_off_step(start: Terminal, out: Seq<u8>, st: StateView)
    requires
        matches(start.fed(out), st),
    ensures
        matches(
            start.fed(
                out + if_held(
                    st.mouse is Some,
                    mode_sequence(mouse_modes(st.mouse->0), RESET_FINAL),
                ),
            ),
            StateView { mouse: None, ..st },
        ),
{
    reveal(matches);
    let t = start.fed(out);
    let next = StateView { mouse: None, ..st };
    let bytes = mode_sequence(mouse_modes(st.mouse->0), RESET_FINAL);
    lemma_held(start, out, st.mouse is Some, bytes);
    lemma_same_settings(t.settings, st, next);
    if st.mouse is Some {
        let some = mouse_modes(st.mouse->0);
        let changed = |m: Mode| some.contains(m);
        let u = t.fed(bytes);
        law_mode_sequence_switches_modes(t, some, false);
        assert forall|m: Mode| #[trigger] u.modes.contains(m) == (t.modes.contains(m)
            && !some.contains(m)) by {
            assert(changed(m) == some.contains(m));
        }
        lemma_mouse_modes(st.mouse->0, Mode::Dec(9));
        lemma_mouse_modes(st.mouse->0, Mode::Dec(25));
        lemma_mouse_modes(st.mouse->0, Mode::Dec(1000));
        lemma_mouse_modes(st.mouse->0, Mode::Dec(1002));
        lemma_mouse_modes(st.mouse->0, Mode::Dec(1003));
        lemma_mouse_modes(st.mouse->0, Mode::Dec(1004));
        lemma_mouse_modes(st.mouse->0, Mode::Dec(1006));
        lemma_mouse_modes(st.mouse->0, Mode::Dec(1016));
        lemma_mouse_modes(st.mouse->0, Mode::Dec(1049));
        lemma_mouse_modes(st.mouse->0, Mode::Dec(2004));
        lemma_mouse_modes(st.mouse->0, Mode::Dec(2027));
        lemma_mouse_modes(st.mouse->0, Mode::Dec(2031));
        lemma_mouse_modes(st.mouse->0, Mode::Dec(2033));
        lemma_mouse_modes(st.mouse->0, Mode::Dec(2048));
    }
}

/// The mouse modes of a request on.
proof fn lemma_mouse_on_step(
    start: Terminal,
    out: Seq<u8>,
    st: StateView,
    mouse: Option<MouseTracking>,
)
    requires
        matches(start.fed(out), st),
        st.mouse is None,
    ensures
        matches(
            start.fed(
                out + if_held(mouse is Some, mode_sequence(mouse_modes(mouse->0), SET_FINAL)),
            ),
            StateView { mouse, ..st },
        ),
{
    reveal(matches);
    let t = start.fed(out);
    let next = StateView { mouse, ..st };
    let bytes = mode_sequence(mouse_modes(mouse->0), SET_FINAL);
    lemma_held(start, out, mouse is Some, bytes);
    lemma_same_settings(t.settings, st, next);
    if mouse is Some {
        assert(mouse_modes_are(t, t, None));
        lemma_mouse_on(t, mouse->0);
        let u = t.fed(bytes);
        assert(modes_match(u.modes, next));
    }
}

/// A dynamic color set where it is overridden.
proof fn lemma_color_on_step(
    start: Terminal,
    out: Seq<u8>,
    st: StateView,
    next: StateView,
    n: nat,
    color: Option<Color>,
)
    requires
        matches(start.fed(out), st),
        n == 10 && st.foreground_color is None && next == (StateView {
            foreground_color: color,
            ..st
        }) || n == 11 && st.background_color is None && next == (StateView {
            background_color: color,
            ..st
        }) || n == 12 && st.cursor_color is None && next == (StateView {
            cursor_color: color,
            ..st
        }),
    ensures
        matches(start.fed(out + if_held(color is Some, set_color_bytes(n, color->0))), next),
{
    reveal(matches);
    reveal(settings_match);
    lemma_held(start, out, color is Some, set_color_bytes(n, color->0));
    if color is Some {
        lemma_color_bytes(color->0);
        lemma_command(start.fed(out), n, rgb_bytes(color->0));
    }
}

/// A dynamic color taken back where it is overridden.
proof fn lemma_color_off_step(
    start: Terminal,
    out: Seq<u8>,
    st: StateView,
    next: StateView,
    n: nat,
    held: bool,
)
    requires
        matches(start.fed(out), st),
        n == 10 && held == st.foreground_color is Some && next == (StateView {
            foreground_color: None,
            ..st
        }) || n == 11 && held == st.background_color is Some && next == (StateView {
            background_color: None,
            ..st
        }) || n == 12 && held == st.cursor_color is Some && next == (StateView {
            cursor_color: None,
            ..st
        }),
    ensures
        matches(start.fed(out + if_held(held, osc_bare(100 + n))), next),
{
    reveal(matches);
    reveal(settings_match);
    lemma_held(start, out, held, osc_bare(100 + n));
    lemma_bare_command(start.fed(out), 100 + n);
}

/// The palette taken back.
proof fn lemma_palette_off_step(start: Terminal, out: Seq<u8>, st: StateView)
    requires
        matches(start.fed(out), st),
    ensures
        matches(
            start.fed(out + if_held(!st.palette.is_empty(), osc_bare(104))),
            StateView { palette: Map::empty(), ..st },
        ),
{
    reveal(matches);
    reveal(settings_match);
    lemma_held(start, out, !st.palette.is_empty(), osc_bare(104));
    lemma_bare_command(start.fed(out), 104);
    assert(st.palette.is_empty() ==> st.palette =~= Map::empty());
}

/// The overrides of `all` below index `i`.
spec fn below(all: Map<u8, Color>, i: int) -> Map<u8, Color> {
    all.restrict(Set::new(|k: u8| k < i))
}

/// One palette override.
proof fn lemma_palette_entry_step(
    start: Terminal,
    out: Seq<u8>,
    st: StateView,
    index: u8,
    color: Color,
)
    requires
        matches(start.fed(out), st),
    ensures
        matches(
            start.fed(out + set_palette_bytes(index, color)),
            StateView { palette: st.palette.insert(index, color), ..st },
        ),
{
    reveal(matches);
    reveal(settings_match);
    let t = start.fed(out);
    lemma_fed_append(start, out, set_palette_bytes(index, color));
    lemma_palette_set(t, index, color);
    lemma_palette_insert(t.settings.palette, st.palette, index, color);
}

/// The palette set, from index `i` on.
proof fn lemma_palette_on_step(
    start: Terminal,
    out: Seq<u8>,
    st: StateView,
    all: Map<u8, Color>,
    i: int,
)
    requires
        0 <= i <= 256,
        matches(start.fed(out), st),
        st.palette == below(all, i),
    ensures
        matches(start.fed(out + palette_bytes(all, i)), StateView { palette: all, ..st }),
    decreases 256 - i,
{
    if i >= 256 {
        assert(out + palette_bytes(all, i) =~= out);
        assert(below(all, i) =~= all);
    } else {
        let k = i as u8;
        let next = StateView { palette: below(all, i + 1), ..st };
        if all.contains_key(k) {
            let bytes = set_palette_bytes(k, all[k]);
            assert(below(all, i + 1) =~= below(all, i).insert(k, all[k]));
            lemma_palette_entry_step(start, out, st, k, all[k]);
            lemma_palette_on_step(start, out + bytes, next, all, i + 1);
            assert(out + palette_bytes(all, i) =~= out + bytes + palette_bytes(all, i + 1));
        } else {
            assert(below(all, i + 1) =~= below(all, i));
            lemma_palette_on_step(start, out, next, all, i + 1);
        }
    }
}

/// What is sent of a title that is set or taken back.
pub open spec fn title_text(title: Option<Seq<char>>) -> Seq<char> {
    match title {
        Some(text) => text,
        None => Seq::empty(),
    }
}

/// The bytes of a title.
proof fn lemma_title_text(title: Option<Seq<char>>)
    requires
        printable_text(title_text(title)),
    ensures
        encode_utf8(title_text(title)) == override_bytes(title),
        unescaped(encode_utf8(title_text(title))),
{
    lemma_plain_encoding(title_text(title));
    if title is None {
        assert(encode_utf8(title_text(title)) =~= Seq::<u8>::empty());
    }
}

/// The window title.
proof fn lemma_window_title_step(
    start: Terminal,
    out: Seq<u8>,
    st: StateView,
    held: bool,
    title: Option<Seq<char>>,
)
    requires
        matches(start.fed(out), st),
        printable_text(title_text(title)),
        !held ==> st.window_title == title,
    ensures
        matches(
            start.fed(out + if_held(held, osc_text(2, encode_utf8(title_text(title))))),
            StateView { window_title: title, ..st },
        ),
{
    reveal(matches);
    reveal(settings_match);
    let bytes = encode_utf8(title_text(title));
    lemma_title_text(title);
    lemma_held(start, out, held, osc_text(2, bytes));
    lemma_command(start.fed(out), 2, bytes);
}

/// The icon name.
proof fn lemma_icon_name_step(
    start: Terminal,
    out: Seq<u8>,
    st: StateView,
    held: bool,
    title: Option<Seq<char>>,
)
    requires
        matches(start.fed(out), st),
        printable_text(title_text(title)),
        !held ==> st.icon_name == title,
    ensures
        matches(
            start.fed(out + if_held(held, osc_text(1, encode_utf8(title_text(title))))),
            StateView { icon_name: title, ..st },
        ),
{
    reveal(matches);
    reveal(settings_match);
    let bytes = encode_utf8(title_text(title));
    lemma_title_text(title);
    lemma_held(start, out, held, osc_text(1, bytes));
    lemma_command(start.fed(out), 1, bytes);
}

/// Both at once.
proof fn lemma_both_titles_step(
    start: Terminal,
    out: Seq<u8>,
    st: StateView,
    title: Option<Seq<char>>,
)
    requires
        matches(start.fed(out), st),
        printable_text(title_text(title)),
    ensures
        matches(
            start.fed(out + osc_text(0, encode_utf8(title_text(title)))),
            StateView { window_title: title, icon_name: title, ..st },
        ),
{
    reveal(matches);
    reveal(settings_match);
    let bytes = encode_utf8(title_text(title));
    lemma_title_text(title);
    lemma_fed_append(start, out, osc_text(0, bytes));
    lemma_command(start.fed(out), 0, bytes);
}

/// The titles taken back.
proof fn lemma_titles_off_step(start: Terminal, out: Seq<u8>, st: StateView)
    requires
        matches(start.fed(out), st),
    ensures
        matches(
            start.fed(out + title_reset_bytes(st)),
            StateView { window_title: None, icon_name: None, ..st },
        ),
{
    reveal_strlit("");
    assert(""@ =~= title_text(None));
    if st.window_title is Some && st.window_title == st.icon_name {
        lemma_both_titles_step(start, out, st, None);
    } else {
        let empty = encode_utf8(title_text(None));
        let a = if_held(st.window_title is Some, osc_text(2, empty));
        let b = if_held(st.icon_name is Some, osc_text(1, empty));
        let s1 = StateView { window_title: None, ..st };
        lemma_window_title_step(start, out, st, st.window_title is Some, None);
        lemma_icon_name_step(start, out + a, s1, st.icon_name is Some, None);
        assert(out + (a + b) =~= out + a + b);
    }
}

/// The titles set.
proof fn lemma_titles_on_step(start: Terminal, out: Seq<u8>, st: StateView, all: StateView)
    requires
        matches(start.fed(out), st),
        st.window_title is None,
        st.icon_name is None,
        all.window_title is Some ==> printable_text(all.window_title->0),
        all.icon_name is Some ==> printable_text(all.icon_name->0),
    ensures
        matches(
            start.fed(out + title_set_bytes(all)),
            StateView { window_title: all.window_title, icon_name: all.icon_name, ..st },
        ),
{
    let (w, i) = (all.window_title, all.icon_name);
    if w is Some && w == i {
        lemma_both_titles_step(start, out, st, w);
    } else {
        let a = if_held(w is Some, osc_text(2, encode_utf8(w->0)));
        let b = if_held(i is Some, osc_text(1, encode_utf8(i->0)));
        let s1 = StateView { window_title: w, ..st };
        lemma_window_title_step(start, out, st, w is Some, w);
        lemma_icon_name_step(start, out + a, s1, i is Some, i);
        assert(out + (a + b) =~= out + a + b);
    }
}

/// The pointer shape.
proof fn lemma_pointer_step(
    start: Terminal,
    out: Seq<u8>,
    st: StateView,
    held: bool,
    shape: Option<Seq<char>>,
)
    requires
        matches(start.fed(out), st),
        shape is Some ==> printable_text(shape->0),
        !held ==> st.pointer_shape == shape,
    ensures
        ({
            let name = match shape {
                Some(name) => encode_utf8(name),
                None => "default".spec_bytes(),
            };
            matches(
                start.fed(out + if_held(held, pointer_shape_bytes(name))),
                StateView { pointer_shape: shape, ..st },
            )
        }),
{
    reveal(matches);
    reveal(settings_match);
    let name = match shape {
        Some(name) => {
            lemma_plain_encoding(name);
            encode_utf8(name)
        },
        None => {
            lemma_default_shape();
            "default".spec_bytes()
        },
    };
    lemma_held(start, out, held, pointer_shape_bytes(name));
    lemma_pointer(start.fed(out), name);
}

/// Bracketed paste.
proof fn lemma_bracketed_paste_step(start: Terminal, out: Seq<u8>, st: StateView, held: bool, on: bool)
    requires
        matches(start.fed(out), st),
    ensures
        matches(
            start.fed(out + if_held(held, switch(Mode::bracketed_paste(), on))),
            StateView {
                bracketed_paste: if held {
                    on
                } else {
                    st.bracketed_paste
                },
                ..st
            },
        ),
{
    reveal(matches);
    let next = StateView {
        bracketed_paste: if held {
            on
        } else {
            st.bracketed_paste
        },
        ..st
    };
    lemma_switch_step(start, out, st, next, held, Mode::bracketed_paste(), on);
}

/// Focus reporting.
proof fn lemma_focus_events_step(start: Terminal, out: Seq<u8>, st: StateView, held: bool, on: bool)
    requires
        matches(start.fed(out), st),
    ensures
        matches(
            start.fed(out + if_held(held, switch(Mode::focus(), on))),
            StateView {
                focus_events: if held {
                    on
                } else {
                    st.focus_events
                },
                ..st
            },
        ),
{
    reveal(matches);
    let next = StateView {
        focus_events: if held {
            on
        } else {
            st.focus_events
        },
        ..st
    };
    lemma_switch_step(start, out, st, next, held, Mode::focus(), on);
}

/// Color-scheme updates.
proof fn lemma_color_scheme_updates_step(start: Terminal, out: Seq<u8>, st: StateView, held: bool, on: bool)
    requires
        matches(start.fed(out), st),
    ensures
        matches(
            start.fed(out + if_held(held, switch(Mode::light_dark(), on))),
            StateView {
                color_scheme_updates: if held {
                    on
                } else {
                    st.color_scheme_updates
                },
                ..st
            },
        ),
{
    reveal(matches);
    let next = StateView {
        color_scheme_updates: if held {
            on
        } else {
            st.color_scheme_updates
        },
        ..st
    };
    lemma_switch_step(start, out, st, next, held, Mode::light_dark(), on);
}

/// In-band resize.
proof fn lemma_in_band_resize_step(start: Terminal, out: Seq<u8>, st: StateView, held: bool, on: bool)
    requires
        matches(start.fed(out), st),
    ensures
        matches(
            start.fed(out + if_held(held, switch(Mode::in_band_resize(), on))),
            StateView {
                in_band_resize: if held {
                    on
                } else {
                    st.in_band_resize
                },
                ..st
            },
        ),
{
    reveal(matches);
    let next = StateView {
        in_band_resize: if held {
            on
        } else {
            st.in_band_resize
        },
        ..st
    };
    lemma_switch_step(start, out, st, next, held, Mode::in_band_resize(), on);
}

/// Visibility reports.
proof fn lemma_visibility_reports_step(start: Terminal, out: Seq<u8>, st: StateView, held: bool, on: bool)
    requires
        matches(start.fed(out), st),
    ensures
        matches(
            start.fed(out + if_held(held, switch(Mode::visibility_reports(), on))),
            StateView {
                visibility_reports: if held {
                    on
                } else {
                    st.visibility_reports
                },
                ..st
            },
        ),
{
    reveal(matches);
    let next = StateView {
        visibility_reports: if held {
            on
        } else {
            st.visibility_reports
        },
        ..st
    };
    lemma_switch_step(start, out, st, next, held, Mode::visibility_reports(), on);
}

/// A state in which nothing is held that rendering does not depend on.
pub open spec fn torn_state(st: StateView) -> StateView {
    StateView {
        cursor_style: CursorStyle::Default,
        mouse: None,
        bracketed_paste: false,
        focus_events: false,
        color_scheme_updates: false,
        visibility_reports: false,
        in_band_resize: false,
        window_title: None,
        icon_name: None,
        foreground_color: None,
        background_color: None,
        cursor_color: None,
        palette: Map::empty(),
        modify_other_keys: ModifyOtherKeysMode::Disabled,
        pointer_shape: None,
        ..st
    }
}

/// The first half of the teardown: style and modes.
proof fn lemma_torn_down_modes(start: Terminal, out: Seq<u8>, st: StateView) -> (r: (
    Seq<u8>,
    StateView,
))
    requires
        matches(start.fed(out), st),
    ensures
        matches(start.fed(r.0), r.1),
        r.0 == out + if_held(
            st.cursor_style != CursorStyle::Default,
            cursor_style_bytes(CursorStyle::Default),
        ) + if_held(st.bracketed_paste, reset_bytes(Mode::bracketed_paste())) + if_held(
            st.focus_events,
            reset_bytes(Mode::focus()),
        ) + if_held(st.mouse is Some, mode_sequence(mouse_modes(st.mouse->0), RESET_FINAL))
            + if_held(st.color_scheme_updates, reset_bytes(Mode::light_dark())) + if_held(
            st.in_band_resize,
            reset_bytes(Mode::in_band_resize()),
        ) + if_held(st.visibility_reports, reset_bytes(Mode::visibility_reports())),
        r.1 == (StateView {
            cursor_style: CursorStyle::Default,
            bracketed_paste: false,
            focus_events: false,
            mouse: None,
            color_scheme_updates: false,
            in_band_resize: false,
            visibility_reports: false,
            ..st
        }),
{
    let held = st.cursor_style != CursorStyle::Default;
    let o1 = out + if_held(held, cursor_style_bytes(CursorStyle::Default));
    let s1 = StateView { cursor_style: CursorStyle::Default, ..st };
    lemma_style_step(start, out, st, held, CursorStyle::Default);
    let o2 = o1 + if_held(st.bracketed_paste, switch(Mode::bracketed_paste(), false));
    let s2 = StateView { bracketed_paste: false, ..s1 };
    lemma_bracketed_paste_step(start, o1, s1, st.bracketed_paste, false);
    let o3 = o2 + if_held(st.focus_events, switch(Mode::focus(), false));
    let s3 = StateView { focus_events: false, ..s2 };
    lemma_focus_events_step(start, o2, s2, st.focus_events, false);
    let o4 = o3 + if_held(st.mouse is Some, mode_sequence(mouse_modes(st.mouse->0), RESET_FINAL));
    let s4 = StateView { mouse: None, ..s3 };
    lemma_mouse_off_step(start, o3, s3);
    let o5 = o4 + if_held(st.color_scheme_updates, switch(Mode::light_dark(), false));
    let s5 = StateView { color_scheme_updates: false, ..s4 };
    lemma_color_scheme_updates_step(start, o4, s4, st.color_scheme_updates, false);
    let o6 = o5 + if_held(st.in_band_resize, switch(Mode::in_band_resize(), false));
    let s6 = StateView { in_band_resize: false, ..s5 };
    lemma_in_band_resize_step(start, o5, s5, st.in_band_resize, false);
    let o7 = o6 + if_held(st.visibility_reports, switch(Mode::visibility_reports(), false));
    let s7 = StateView { visibility_reports: false, ..s6 };
    lemma_visibility_reports_step(start, o6, s6, st.visibility_reports, false);
    (o7, s7)
}

/// Colors taken back.
proof fn lemma_torn_down_colors(start: Terminal, out: Seq<u8>, st: StateView) -> (r: (
    Seq<u8>,
    StateView,
))
    requires
        matches(start.fed(out), st),
    ensures
        matches(start.fed(r.0), r.1),
        r.0 == out + if_held(st.foreground_color is Some, osc_bare(110)) + if_held(
            st.background_color is Some,
            osc_bare(111),
        ) + if_held(st.cursor_color is Some, osc_bare(112)) + if_held(
            !st.palette.is_empty(),
            osc_bare(104),
        ),
        r.1 == (StateView {
            foreground_color: None,
            background_color: None,
            cursor_color: None,
            palette: Map::empty(),
            ..st
        }),
{
    let o1 = out + if_held(st.foreground_color is Some, osc_bare(110));
    let s1 = StateView { foreground_color: None, ..st };
    lemma_color_off_step(start, out, st, s1, 10, st.foreground_color is Some);
    let o2 = o1 + if_held(st.background_color is Some, osc_bare(111));
    let s2 = StateView { background_color: None, ..s1 };
    lemma_color_off_step(start, o1, s1, s2, 11, st.background_color is Some);
    let o3 = o2 + if_held(st.cursor_color is Some, osc_bare(112));
    let s3 = StateView { cursor_color: None, ..s2 };
    lemma_color_off_step(start, o2, s2, s3, 12, st.cursor_color is Some);
    lemma_palette_off_step(start, o3, s3);
    (
        o3 + if_held(!st.palette.is_empty(), osc_bare(104)),
        StateView { palette: Map::empty(), ..s3 },
    )
}

/// Titles and pointer shape taken back.
proof fn lemma_torn_down_texts(start: Terminal, out: Seq<u8>, st: StateView) -> (r: (
    Seq<u8>,
    StateView,
))
    requires
        matches(start.fed(out), st),
    ensures
        matches(start.fed(r.0), r.1),
        r.0 == out + title_reset_bytes(st) + if_held(
            st.pointer_shape is Some,
            pointer_shape_bytes("default".spec_bytes()),
        ),
        r.1 == (StateView { window_title: None, icon_name: None, pointer_shape: None, ..st }),
{
    let o1 = out + title_reset_bytes(st);
    let s1 = StateView { window_title: None, icon_name: None, ..st };
    lemma_titles_off_step(start, out, st);
    lemma_pointer_step(start, o1, s1, st.pointer_shape is Some, None);
    (
        o1 + if_held(st.pointer_shape is Some, pointer_shape_bytes("default".spec_bytes())),
        StateView { pointer_shape: None, ..s1 },
    )
}

/// The teardown of what rendering does not depend on.
proof fn lemma_torn_down(start: Terminal, out: Seq<u8>, st: StateView)
    requires
        matches(start.fed(out), st),
    ensures
        matches(start.fed(torn_down(out, st)), torn_state(st)),
{
    let (o7, s7) = lemma_torn_down_modes(start, out, st);
    let held = !(st.modify_other_keys is Disabled);
    let o8 = o7 + if_held(held, modify_other_keys_bytes(ModifyOtherKeysMode::Disabled));
    let s8 = StateView { modify_other_keys: ModifyOtherKeysMode::Disabled, ..s7 };
    lemma_other_keys_step(start, o7, s7, held, ModifyOtherKeysMode::Disabled);
    let (o12, s12) = lemma_torn_down_colors(start, o8, s8);
    let (o14, s14) = lemma_torn_down_texts(start, o12, s12);
    assert(title_reset_bytes(s12) == title_reset_bytes(st));
    assert(s14 == torn_state(st));
}

/// Line feeds change neither cells nor modes nor settings.
proof fn lemma_line_feeds_keep(t: Terminal, n: int)
    requires
        t.pending.len() == 0,
        n >= 0,
    ensures
        kept_state(t, t.fed(line_feeds(n))),
    decreases n,
{
    if n > 0 {
        lemma_line_feeds_keep(t, n - 1);
        assert(line_feeds(n) =~= line_feeds(n - 1) + seq![0x0au8]);
        lemma_fed_append(t, line_feeds(n - 1), seq![0x0au8]);
        lemma_line_feed(t.fed(line_feeds(n - 1)));
    } else {
        assert(line_feeds(n) =~= Seq::empty());
    }
}

/// Whether the cells, modes and settings are the same, and no sequence is under way.
pub open spec fn kept_state(t: Terminal, u: Terminal) -> bool {
    &&& u.pending.len() == 0
    &&& u.cells == t.cells
    &&& u.modes == t.modes
    &&& u.settings == t.settings
}

/// A move between rows and columns.
proof fn lemma_relative_keeps(t: Terminal, from: Position, to: Position)
    requires
        t.pending.len() == 0,
    ensures
        kept_state(t, t.fed(vertical_bytes(from.y, to.y) + horizontal_bytes(from.x, to.x))),
{
    let v = vertical_bytes(from.y, to.y);
    let h = horizontal_bytes(from.x, to.x);
    lemma_fed_append(t, v, h);
    if to.y > from.y {
        lemma_line_feeds_keep(t, to.y - from.y);
    } else if to.y < from.y {
        law_cursor_up_moves_up(t, (from.y - to.y) as nat);
    }
    let u = t.fed(v);
    if to.x != from.x {
        lemma_return(u);
        if to.x != 0 {
            lemma_fed_append(u, "\r".spec_bytes(), cuf_bytes(to.x as nat));
            law_cursor_forward_moves_right(u.fed("\r".spec_bytes()), to.x as nat);
        }
    }
}

/// A cursor that is sent somewhere changes neither cells nor modes nor settings, wherever it is.
pub proof fn law_sent_cursor_changes_nothing_else(start: Terminal, s: ScreenView, to: Position)
    requires
        start.fed(s.out).pending.len() == 0,
    ensures
        kept_state(start.fed(s.out), start.fed(cursor_sent(s, to).out)),
{
    let t = start.fed(s.out);
    let pen = Pen { bytes: s.out, at: s.renderer.cursor };
    let relative = s.renderer.relative_cursor;
    if pen.at == Some(to) {
    } else if !relative {
        let bytes = cup_bytes(to.x, to.y);
        lemma_fed_append(start, s.out, bytes);
        law_cursor_position_places_cursor(t, to.x, to.y);
    } else {
        match pen.at {
            Some(from) => {
                let b = vertical_bytes(from.y, to.y) + horizontal_bytes(from.x, to.x);
                assert(moved(pen, to, relative).bytes =~= s.out + b);
                lemma_fed_append(start, s.out, b);
                lemma_relative_keeps(t, from, to);
            },
            None => {
                let r = "\r".spec_bytes();
                let b = vertical_bytes(0, to.y) + horizontal_bytes(0, to.x);
                assert(moved(pen, to, relative).bytes =~= (s.out + r) + b);
                lemma_fed_append(start, s.out, r);
                lemma_fed_append(start, s.out + r, b);
                lemma_return(t);
                lemma_relative_keeps(t.fed(r), Position { x: 0, y: 0 }, to);
            },
        }
    }
}

/// Keyboard enhancements where they are held.
proof fn lemma_keyboard_step(
    start: Terminal,
    out: Seq<u8>,
    st: StateView,
    held: bool,
    flags: KittyKeyboardFlags,
)
    requires
        matches(start.fed(out), st),
    ensures
        ({
            let t = start.fed(out);
            let u = start.fed(out + if_held(held, set_keyboard_bytes(flags)));
            &&& matches(u, st)
            &&& u.settings.keyboard == (if held && !st.alt_screen {
                enhancements(flags)
            } else {
                t.settings.keyboard
            })
            &&& u.settings.alt_keyboard == (if held && st.alt_screen {
                enhancements(flags)
            } else {
                t.settings.alt_keyboard
            })
        }),
{
    reveal(matches);
    reveal(settings_match);
    lemma_held(start, out, held, set_keyboard_bytes(flags));
    lemma_keyboard(start.fed(out), flags);
}

/// A state with no mode held that rendering depends on.
pub open spec fn plain_state(st: StateView) -> StateView {
    StateView { cursor_visible: true, alt_screen: false, grapheme_clusters: false, ..st }
}

/// The teardown of what rendering depends on.
proof fn lemma_render_torn_down(start: Terminal, out: Seq<u8>, st: StateView)
    requires
        matches(start.fed(out), st),
    ensures
        ({
            let u = start.fed(render_torn_down(out, st));
            &&& matches(u, plain_state(st))
            &&& !st.kitty_keyboard.is_empty() ==> u.settings.keyboard == 0 && (st.alt_screen
                ==> u.settings.alt_keyboard == 0)
        }),
{
    reveal(matches);
    let kitty = !st.kitty_keyboard.is_empty();
    let none = KittyKeyboardFlags::empty();
    let o1 = out + if_held(!st.cursor_visible, switch(Mode::cursor_visible(), true));
    let s1 = StateView { cursor_visible: true, ..st };
    lemma_switch_step(start, out, st, s1, !st.cursor_visible, Mode::cursor_visible(), true);
    let o2 = o1 + if_held(st.alt_screen && kitty, set_keyboard_bytes(none));
    lemma_keyboard_step(start, o1, s1, st.alt_screen && kitty, none);
    let o3 = o2 + if_held(st.alt_screen, switch(Mode::alt_screen_save_cursor(), false));
    let s3 = StateView { alt_screen: false, ..s1 };
    lemma_switch_step(start, o2, s1, s3, st.alt_screen, Mode::alt_screen_save_cursor(), false);
    let o4 = o3 + if_held(kitty, set_keyboard_bytes(none));
    lemma_keyboard_step(start, o3, s3, kitty, none);
    let s5 = StateView { grapheme_clusters: false, ..s3 };
    lemma_switch_step(start, o4, s3, s5, st.grapheme_clusters, Mode::unicode_core(), false);
    assert(enhancements(none) == 0);
}

/// A terminal that is handed back is as a shell has it: no mode and no setting that was tracked
/// is left, and the keyboard enhancements are cleared on every screen buffer that was used.
pub proof fn law_teardown_leaves_nothing(start: Terminal, s: ScreenView)
    requires
        set_as_tracked(start, s),
    ensures
        ({
            let u = start.fed(reset_staged(s).out);
            &&& matches(u, no_modes())
            &&& !s.state.kitty_keyboard.is_empty() ==> u.settings.keyboard == 0 && (
            s.state.alt_screen ==> u.settings.alt_keyboard == 0)
        }),
{
    reveal(matches);
    reveal(set_as_tracked);
    let st = s.state;
    lemma_torn_down(start, s.out, st);
    let b = ScreenView { out: torn_down(s.out, st), ..s };
    let a = cursor_at_bottom(b);
    if s.renderer.last_size.height > 0 {
        let to = Position { x: 0, y: (s.renderer.last_size.height - 1) as u16 };
        law_sent_cursor_changes_nothing_else(start, b, to);
    }
    lemma_rendering_state(start, a.out, st);
    let u = start.fed(reset_staged(s).out);
    lemma_no_modes(u, plain_state(torn_state(st)));
}

/// The teardown of what rendering depends on, which goes by those modes alone.
proof fn lemma_rendering_state(start: Terminal, out: Seq<u8>, st: StateView)
    requires
        matches(start.fed(out), torn_state(st)),
    ensures
        ({
            let u = start.fed(render_torn_down(out, st));
            &&& matches(u, plain_state(torn_state(st)))
            &&& !st.kitty_keyboard.is_empty() ==> u.settings.keyboard == 0 && (st.alt_screen
                ==> u.settings.alt_keyboard == 0)
        }),
{
    lemma_render_torn_down(start, out, torn_state(st));
    assert(render_torn_down(out, torn_state(st)) == render_torn_down(out, st));
}

/// A state without modes and settings.
proof fn lemma_no_modes(t: Terminal, st: StateView)
    requires
        matches(t, st),
        st == plain_state(torn_state(st)),
    ensures
        matches(t, no_modes()),
{
    reveal(matches);
    reveal(settings_match);
}

/// What rendering depends on, applied again.
proof fn lemma_render_set_up(start: Terminal, out: Seq<u8>, st: StateView)
    requires
        matches(start.fed(out), no_modes()),
    ensures
        ({
            let u = start.fed(render_set_up(out, st));
            &&& matches(
                u,
                StateView {
                    alt_screen: st.alt_screen,
                    grapheme_clusters: st.grapheme_clusters,
                    cursor_visible: st.cursor_visible,
                    ..no_modes()
                },
            )
            &&& !st.kitty_keyboard.is_empty() ==> u.settings.keyboard == enhancements(
                st.kitty_keyboard,
            ) && (st.alt_screen ==> u.settings.alt_keyboard == enhancements(st.kitty_keyboard))
        }),
{
    reveal(matches);
    let flags = st.kitty_keyboard;
    let kitty = !flags.is_empty();
    let s0 = no_modes();
    let o1 = out + if_held(kitty, set_keyboard_bytes(flags));
    lemma_keyboard_step(start, out, s0, kitty, flags);
    let o2 = o1 + if_held(st.alt_screen, switch(Mode::alt_screen_save_cursor(), true));
    let s2 = StateView { alt_screen: st.alt_screen, ..s0 };
    lemma_switch_step(start, o1, s0, s2, st.alt_screen, Mode::alt_screen_save_cursor(), true);
    let o3 = o2 + if_held(st.alt_screen && kitty, set_keyboard_bytes(flags));
    lemma_keyboard_step(start, o2, s2, st.alt_screen && kitty, flags);
    let o4 = o3 + if_held(st.grapheme_clusters, switch(Mode::unicode_core(), true));
    let s4 = StateView { grapheme_clusters: st.grapheme_clusters, ..s2 };
    lemma_switch_step(start, o3, s2, s4, st.grapheme_clusters, Mode::unicode_core(), true);
    let s5 = StateView { cursor_visible: st.cursor_visible, ..s4 };
    lemma_switch_step(start, o4, s4, s5, !st.cursor_visible, Mode::cursor_visible(), false);
}

/// The cursor style and the reports, applied again.
proof fn lemma_set_up_reports(start: Terminal, out: Seq<u8>, s0: StateView, st: StateView) -> (r: (
    Seq<u8>,
    StateView,
))
    requires
        matches(start.fed(out), s0),
        s0.cursor_style == CursorStyle::Default,
        !s0.color_scheme_updates,
        !s0.in_band_resize,
        !s0.visibility_reports,
    ensures
        matches(start.fed(r.0), r.1),
        r.0 == out + if_held(
            st.cursor_style != CursorStyle::Default,
            cursor_style_bytes(st.cursor_style),
        ) + if_held(st.color_scheme_updates, set_bytes(Mode::light_dark())) + if_held(
            st.in_band_resize,
            set_bytes(Mode::in_band_resize()),
        ) + if_held(st.visibility_reports, set_bytes(Mode::visibility_reports())),
        r.1 == (StateView {
            cursor_style: st.cursor_style,
            color_scheme_updates: st.color_scheme_updates,
            in_band_resize: st.in_band_resize,
            visibility_reports: st.visibility_reports,
            ..s0
        }),
{
    let held = st.cursor_style != CursorStyle::Default;
    let o1 = out + if_held(held, cursor_style_bytes(st.cursor_style));
    let s1 = StateView { cursor_style: st.cursor_style, ..s0 };
    lemma_style_step(start, out, s0, held, st.cursor_style);
    let o2 = o1 + if_held(st.color_scheme_updates, switch(Mode::light_dark(), true));
    let s2 = StateView { color_scheme_updates: st.color_scheme_updates, ..s1 };
    lemma_color_scheme_updates_step(start, o1, s1, st.color_scheme_updates, true);
    let o3 = o2 + if_held(st.in_band_resize, switch(Mode::in_band_resize(), true));
    let s3 = StateView { in_band_resize: st.in_band_resize, ..s2 };
    lemma_in_band_resize_step(start, o2, s2, st.in_band_resize, true);
    let o4 = o3 + if_held(st.visibility_reports, switch(Mode::visibility_reports(), true));
    let s4 = StateView { visibility_reports: st.visibility_reports, ..s3 };
    lemma_visibility_reports_step(start, o3, s3, st.visibility_reports, true);
    (o4, s4)
}

/// The modes of input, applied again.
proof fn lemma_set_up_input(start: Terminal, out: Seq<u8>, s0: StateView, st: StateView) -> (r: (
    Seq<u8>,
    StateView,
))
    requires
        matches(start.fed(out), s0),
        s0.modify_other_keys is Disabled,
        !s0.bracketed_paste,
        !s0.focus_events,
        s0.mouse is None,
    ensures
        matches(start.fed(r.0), r.1),
        r.0 == out + if_held(
            !(st.modify_other_keys is Disabled),
            modify_other_keys_bytes(st.modify_other_keys),
        ) + if_held(st.bracketed_paste, set_bytes(Mode::bracketed_paste())) + if_held(
            st.focus_events,
            set_bytes(Mode::focus()),
        ) + if_held(st.mouse is Some, mode_sequence(mouse_modes(st.mouse->0), SET_FINAL)),
        r.1 == (StateView {
            modify_other_keys: st.modify_other_keys,
            bracketed_paste: st.bracketed_paste,
            focus_events: st.focus_events,
            mouse: st.mouse,
            ..s0
        }),
{
    let other = !(st.modify_other_keys is Disabled);
    let o1 = out + if_held(other, modify_other_keys_bytes(st.modify_other_keys));
    let s1 = StateView { modify_other_keys: st.modify_other_keys, ..s0 };
    lemma_other_keys_step(start, out, s0, other, st.modify_other_keys);
    let o2 = o1 + if_held(st.bracketed_paste, switch(Mode::bracketed_paste(), true));
    let s2 = StateView { bracketed_paste: st.bracketed_paste, ..s1 };
    lemma_bracketed_paste_step(start, o1, s1, st.bracketed_paste, true);
    let o3 = o2 + if_held(st.focus_events, switch(Mode::focus(), true));
    let s3 = StateView { focus_events: st.focus_events, ..s2 };
    lemma_focus_events_step(start, o2, s2, st.focus_events, true);
    let o4 = o3 + if_held(st.mouse is Some, mode_sequence(mouse_modes(st.mouse->0), SET_FINAL));
    let s4 = StateView { mouse: st.mouse, ..s3 };
    lemma_mouse_on_step(start, o3, s3, st.mouse);
    (o4, s4)
}

/// The state that rendering depends on, with everything else as `st` holds it.
pub open spec fn dressed(s0: StateView, st: StateView) -> StateView {
    StateView {
        alt_screen: s0.alt_screen,
        grapheme_clusters: s0.grapheme_clusters,
        cursor_visible: s0.cursor_visible,
        kitty_keyboard: s0.kitty_keyboard,
        sync_updates: s0.sync_updates,
        desired_cursor: s0.desired_cursor,
        ..st
    }
}

/// What rendering does not depend on, applied again.
#[verifier::rlimit(100)]
proof fn lemma_set_up(start: Terminal, out: Seq<u8>, s0: StateView, st: StateView)
    requires
        matches(start.fed(out), s0),
        s0 == torn_state(s0),
        st.window_title is Some ==> printable_text(st.window_title->0),
        st.icon_name is Some ==> printable_text(st.icon_name->0),
        st.pointer_shape is Some ==> printable_text(st.pointer_shape->0),
    ensures
        matches(start.fed(set_up(out, st)), dressed(s0, st)),
{
    let (o4, s4) = lemma_set_up_reports(start, out, s0, st);
    let (o8, s8) = lemma_set_up_input(start, o4, s4, st);
    let (o12, s12) = lemma_set_up_colors(start, o8, s8, st);
    let (o14, s14) = lemma_set_up_texts(start, o12, s12, st);
    assert(s14 == dressed(s0, st));
}

/// Colors applied again.
proof fn lemma_set_up_colors(start: Terminal, out: Seq<u8>, s0: StateView, st: StateView) -> (r: (
    Seq<u8>,
    StateView,
))
    requires
        matches(start.fed(out), s0),
        s0.foreground_color is None,
        s0.background_color is None,
        s0.cursor_color is None,
        s0.palette == Map::<u8, Color>::empty(),
    ensures
        matches(start.fed(r.0), r.1),
        r.0 == out + if_held(
            st.foreground_color is Some,
            set_color_bytes(10, st.foreground_color->0),
        ) + if_held(
            st.background_color is Some,
            set_color_bytes(11, st.background_color->0),
        ) + if_held(st.cursor_color is Some, set_color_bytes(12, st.cursor_color->0))
            + palette_bytes(st.palette, 0),
        r.1 == (StateView {
            foreground_color: st.foreground_color,
            background_color: st.background_color,
            cursor_color: st.cursor_color,
            palette: st.palette,
            ..s0
        }),
{
    let o1 = out + if_held(
        st.foreground_color is Some,
        set_color_bytes(10, st.foreground_color->0),
    );
    let s1 = StateView { foreground_color: st.foreground_color, ..s0 };
    lemma_color_on_step(start, out, s0, s1, 10, st.foreground_color);
    let o2 = o1 + if_held(
        st.background_color is Some,
        set_color_bytes(11, st.background_color->0),
    );
    let s2 = StateView { background_color: st.background_color, ..s1 };
    lemma_color_on_step(start, o1, s1, s2, 11, st.background_color);
    let o3 = o2 + if_held(st.cursor_color is Some, set_color_bytes(12, st.cursor_color->0));
    let s3 = StateView { cursor_color: st.cursor_color, ..s2 };
    lemma_color_on_step(start, o2, s2, s3, 12, st.cursor_color);
    assert(below(st.palette, 0) =~= Map::empty());
    lemma_palette_on_step(start, o3, s3, st.palette, 0);
    (o3 + palette_bytes(st.palette, 0), StateView { palette: st.palette, ..s3 })
}

/// Titles and pointer shape applied again.
proof fn lemma_set_up_texts(start: Terminal, out: Seq<u8>, s0: StateView, st: StateView) -> (r: (
    Seq<u8>,
    StateView,
))
    requires
        matches(start.fed(out), s0),
        s0.window_title is None,
        s0.icon_name is None,
        s0.pointer_shape is None,
        st.window_title is Some ==> printable_text(st.window_title->0),
        st.icon_name is Some ==> printable_text(st.icon_name->0),
        st.pointer_shape is Some ==> printable_text(st.pointer_shape->0),
    ensures
        matches(start.fed(r.0), r.1),
        r.0 == out + title_set_bytes(st) + if_held(
            st.pointer_shape is Some,
            pointer_shape_bytes(encode_utf8(st.pointer_shape->0)),
        ),
        r.1 == (StateView {
            window_title: st.window_title,
            icon_name: st.icon_name,
            pointer_shape: st.pointer_shape,
            ..s0
        }),
{
    let o1 = out + title_set_bytes(st);
    let s1 = StateView { window_title: st.window_title, icon_name: st.icon_name, ..s0 };
    lemma_titles_on_step(start, out, s0, st);
    lemma_pointer_step(start, o1, s1, st.pointer_shape is Some, st.pointer_shape);
    let o2 = o1 + if_held(
        st.pointer_shape is Some,
        pointer_shape_bytes(encode_utf8(st.pointer_shape->0)),
    );
    if st.pointer_shape is None {
        assert(o2 =~= o1 + if_held(false, pointer_shape_bytes("default".spec_bytes())));
    }
    (o2, StateView { pointer_shape: st.pointer_shape, ..s1 })
}

/// A terminal that is taken again after it was as a shell has it is set as it is tracked, with
/// the keyboard enhancements on every screen buffer that is used, for texts that print.
pub proof fn law_restore_applies_what_is_tracked(start: Terminal, s: ScreenView)
    requires
        matches(start.fed(s.out), no_modes()),
        s.state.window_title is Some ==> printable_text(s.state.window_title->0),
        s.state.icon_name is Some ==> printable_text(s.state.icon_name->0),
        s.state.pointer_shape is Some ==> printable_text(s.state.pointer_shape->0),
    ensures
        set_as_tracked(start, restore_staged(s)),
{
    reveal(matches);
    reveal(set_as_tracked);
    let st = s.state;
    let s0 = StateView {
        alt_screen: st.alt_screen,
        grapheme_clusters: st.grapheme_clusters,
        cursor_visible: st.cursor_visible,
        ..no_modes()
    };
    lemma_render_set_up(start, s.out, st);
    lemma_set_up(start, render_set_up(s.out, st), s0, st);
    let u = start.fed(restore_staged(s).out);
    lemma_same_settings(u.settings, dressed(s0, st), st);
}

/// Entering or leaving the alternate screen is what the terminal does, and what is tracked. A
/// buffer that is newly entered gets the keyboard enhancements that are held. The alternate
/// screen is the whole window and is redrawn; on the normal one moves are relative.
pub proof fn law_alt_screen_is_tracked(start: Terminal, s: ScreenView, on: bool)
    requires
        set_as_tracked(start, s),
    ensures
        ({
            let after = alt_screen_set(s, on);
            let u = start.fed(after.out);
            &&& set_as_tracked(start, after)
            &&& after.state.alt_screen == on
            &&& s.state.alt_screen != on ==> after.renderer.fullscreen == on
                && after.renderer.relative_cursor == !on && (on ==> after.renderer.clear)
            &&& s.state.alt_screen != on && !s.state.kitty_keyboard.is_empty() ==> {
                &&& on ==> u.settings.alt_keyboard == enhancements(s.state.kitty_keyboard)
                &&& !on ==> u.settings.keyboard == enhancements(s.state.kitty_keyboard)
            }
        }),
{
    reveal(matches);
    reveal(set_as_tracked);
    let flags = s.state.kitty_keyboard;
    let next = StateView { alt_screen: on, ..s.state };
    let o1 = s.out + if_held(true, switch(Mode::alt_screen_save_cursor(), on));
    lemma_switch_step(start, s.out, s.state, next, true, Mode::alt_screen_save_cursor(), on);
    let held = s.state.alt_screen != on && !flags.is_empty();
    lemma_keyboard_step(start, o1, next, held, flags);
    assert(held ==> alt_screen_set(s, on).out == o1 + set_keyboard_bytes(flags));
    if !held {
        assert(o1 + if_held(held, set_keyboard_bytes(flags)) =~= o1);
    }
}

} // verus!
