//! Mode toggles, their teardown and re-application, and the queries.
//!
//! A setter whose tracked value does not change stages nothing. Mouse tracking is the
//! exception: its modes are mutually exclusive, so a request is always staged in full.

use crate::ansi::cursor::{
    cursor_style_bytes, pointer_shape_bytes, write_cursor_style, write_set_pointer_shape,
    CursorStyle,
};
use crate::ansi::kitty::{
    set_keyboard_bytes, write_set_kitty_keyboard, KittyKeyboardFlags, REQUEST_KITTY_KEYBOARD,
};
use crate::ansi::mode::{
    mode_sequence, request_bytes, reset_bytes, set_bytes, write_reset_mode, write_set_mode, Mode,
    RESET_FINAL, SET_FINAL,
};
use crate::ansi::osc::{
    osc_bare, osc_text, set_clipboard_bytes, set_color_bytes, set_palette_bytes, write_icon_name,
    write_osc_bare, write_request_clipboard, write_request_color, write_request_palette_color,
    write_reset_palette_color, write_set_clipboard, write_set_color, write_set_palette_color,
    write_window_title, write_window_title_and_icon, PRIMARY_CLIPBOARD, SYSTEM_CLIPBOARD,
};
use crate::ansi::query::{
    QUERY_MODIFY_OTHER_KEYS, REQUEST_CELL_PIXEL_SIZE, REQUEST_WINDOW_PIXEL_SIZE,
    RESET_MODIFY_OTHER_KEYS, SET_MODIFY_OTHER_KEYS_1, SET_MODIFY_OTHER_KEYS_2,
};
use crate::ansi::status::{
    REQUEST_CURSOR_POSITION, REQUEST_LIGHT_DARK_REPORT, REQUEST_VISIBILITY_REPORT,
};
use crate::bytes::{append_str, digits};
use crate::color::Color;
use crate::event::key::text_view;
use crate::event::ModifyOtherKeysMode;
use crate::layout::Position;
use crate::screen::renderer::RendererView;
use crate::screen::state::{MouseTracking, State, StateView};
use crate::screen::{cursor_sent, staged, with_state, CursorShape, Screen, ScreenView};
use std::collections::BTreeMap;
use vstd::prelude::*;
use vstd::string::*;
use vstd::utf8::encode_utf8;

verus! {

/// `bytes` where `held`, else nothing.
pub open spec fn if_held(held: bool, bytes: Seq<u8>) -> Seq<u8> {
    if held {
        bytes
    } else {
        Seq::empty()
    }
}

/// Every mouse tracking mode and encoding.
pub open spec fn all_mouse_modes() -> Seq<Mode> {
    seq![
        Mode::mouse_x10(),
        Mode::mouse_normal(),
        Mode::mouse_button(),
        Mode::mouse_any(),
        Mode::mouse_sgr(),
        Mode::mouse_sgr_pixel(),
    ]
}

/// The modes of a tracking request, in ascending order: buttons and drags always,
/// motion on request, SGR encoding always, pixels on request.
pub open spec fn mouse_modes(tracking: MouseTracking) -> Seq<Mode> {
    seq![Mode::mouse_normal(), Mode::mouse_button()] + (if tracking.motion {
        seq![Mode::mouse_any()]
    } else {
        Seq::empty()
    }) + seq![Mode::mouse_sgr()] + (if tracking.pixels {
        seq![Mode::mouse_sgr_pixel()]
    } else {
        Seq::empty()
    })
}

/// The bytes that set or reset a mode.
pub open spec fn switch(mode: Mode, on: bool) -> Seq<u8> {
    if on {
        set_bytes(mode)
    } else {
        reset_bytes(mode)
    }
}

/// A screen after a setter: `state` tracked and `bytes` staged, or the screen as it was
/// where the tracked value does not change.
pub open spec fn tracked_change(
    s: ScreenView,
    unchanged: bool,
    state: StateView,
    bytes: Seq<u8>,
) -> ScreenView {
    if unchanged {
        s
    } else {
        with_state(staged(s, bytes), state)
    }
}

/// A screen with bracketed paste on or off.
pub open spec fn bracketed_paste_set(s: ScreenView, on: bool) -> ScreenView {
    tracked_change(
        s,
        s.state.bracketed_paste == on,
        StateView { bracketed_paste: on, ..s.state },
        switch(Mode::bracketed_paste(), on),
    )
}

/// A screen with focus reporting on or off.
pub open spec fn focus_events_set(s: ScreenView, on: bool) -> ScreenView {
    tracked_change(
        s,
        s.state.focus_events == on,
        StateView { focus_events: on, ..s.state },
        switch(Mode::focus(), on),
    )
}

/// A screen with color-scheme update notifications on or off.
pub open spec fn color_scheme_updates_set(s: ScreenView, on: bool) -> ScreenView {
    tracked_change(
        s,
        s.state.color_scheme_updates == on,
        StateView { color_scheme_updates: on, ..s.state },
        switch(Mode::light_dark(), on),
    )
}

/// A screen with in-band resize notifications on or off.
pub open spec fn in_band_resize_set(s: ScreenView, on: bool) -> ScreenView {
    tracked_change(
        s,
        s.state.in_band_resize == on,
        StateView { in_band_resize: on, ..s.state },
        switch(Mode::in_band_resize(), on),
    )
}

/// A screen with visibility reports on or off.
pub open spec fn visibility_reports_set(s: ScreenView, on: bool) -> ScreenView {
    tracked_change(
        s,
        s.state.visibility_reports == on,
        StateView { visibility_reports: on, ..s.state },
        switch(Mode::visibility_reports(), on),
    )
}

/// A screen that has asked where its managed area begins: the cursor goes there, and
/// its position is queried. Nothing in the alternate screen, without origin
/// tracking, or without mouse.
pub open spec fn origin_requested(s: ScreenView) -> ScreenView {
    if s.state.alt_screen || !s.options.track_origin || s.state.mouse is None {
        s
    } else {
        ScreenView {
            origin_pending: true,
            ..staged(
                cursor_sent(s, Position::origin()),
                REQUEST_CURSOR_POSITION.spec_bytes(),
            )
        }
    }
}

/// A screen with mouse tracking on: earlier tracking off, the requested modes on,
/// and the origin asked for.
pub open spec fn mouse_enabled(s: ScreenView, tracking: MouseTracking) -> ScreenView {
    origin_requested(mouse_turned_on(s, tracking))
}

/// A screen with earlier mouse tracking off and the requested modes on.
pub open spec fn mouse_turned_on(s: ScreenView, tracking: MouseTracking) -> ScreenView {
    with_state(
        staged(
            staged(s, mode_sequence(all_mouse_modes(), RESET_FINAL)),
            mode_sequence(mouse_modes(tracking), SET_FINAL),
        ),
        StateView { mouse: Some(tracking), ..s.state },
    )
}

/// The bytes that select a modifyOtherKeys mode.
pub open spec fn modify_other_keys_bytes(mode: ModifyOtherKeysMode) -> Seq<u8> {
    match mode {
        ModifyOtherKeysMode::Disabled => RESET_MODIFY_OTHER_KEYS.spec_bytes(),
        ModifyOtherKeysMode::Mode1 => SET_MODIFY_OTHER_KEYS_1.spec_bytes(),
        ModifyOtherKeysMode::Mode2 => SET_MODIFY_OTHER_KEYS_2.spec_bytes(),
    }
}

/// A screen with this cursor style.
pub open spec fn cursor_styled(s: ScreenView, style: CursorStyle) -> ScreenView {
    tracked_change(
        s,
        s.state.cursor_style == style,
        StateView { cursor_style: style, ..s.state },
        cursor_style_bytes(style),
    )
}

/// A screen with this modifyOtherKeys mode.
pub open spec fn modify_other_keys_set(s: ScreenView, mode: ModifyOtherKeysMode) -> ScreenView {
    tracked_change(
        s,
        s.state.modify_other_keys == mode,
        StateView { modify_other_keys: mode, ..s.state },
        modify_other_keys_bytes(mode),
    )
}

/// A screen with this palette override.
pub open spec fn palette_color_set(s: ScreenView, index: u8, color: Color) -> ScreenView {
    tracked_change(
        s,
        s.state.palette.get(index) == Some(color),
        StateView { palette: s.state.palette.insert(index, color), ..s.state },
        set_palette_bytes(index, color),
    )
}

/// A screen without this palette override.
pub open spec fn palette_color_reset(s: ScreenView, index: u8) -> ScreenView {
    tracked_change(
        s,
        s.state.palette.get(index) is None,
        StateView { palette: s.state.palette.remove(index), ..s.state },
        osc_text(104, digits(index as nat)),
    )
}

/// The title that is tracked: none for an empty one.
pub open spec fn tracked_title(title: Seq<char>) -> Option<Seq<char>> {
    if title.len() == 0 {
        None
    } else {
        Some(title)
    }
}

/// A screen with this window title and icon name.
pub open spec fn title_set(s: ScreenView, title: Seq<char>) -> ScreenView {
    if s.state.window_title == tracked_title(title) && s.state.icon_name == tracked_title(
        title,
    ) {
        s
    } else {
        title_stored(s, title)
    }
}

/// A screen that has set and tracks a title and icon name.
pub open spec fn title_stored(s: ScreenView, title: Seq<char>) -> ScreenView {
    with_state(
        staged(s, osc_text(0, encode_utf8(title))),
        StateView {
            window_title: tracked_title(title),
            icon_name: tracked_title(title),
            ..s.state
        },
    )
}

/// A screen without mouse tracking.
pub open spec fn mouse_disabled(s: ScreenView) -> ScreenView {
    with_state(
        staged(s, mode_sequence(all_mouse_modes(), RESET_FINAL)),
        StateView { mouse: None, ..s.state },
    )
}

/// A screen with this window title.
pub open spec fn window_title_set(s: ScreenView, title: Seq<char>) -> ScreenView {
    tracked_change(
        s,
        s.state.window_title == tracked_title(title),
        StateView { window_title: tracked_title(title), ..s.state },
        osc_text(2, encode_utf8(title)),
    )
}

/// A screen with this icon name.
pub open spec fn icon_name_set(s: ScreenView, title: Seq<char>) -> ScreenView {
    tracked_change(
        s,
        s.state.icon_name == tracked_title(title),
        StateView { icon_name: tracked_title(title), ..s.state },
        osc_text(1, encode_utf8(title)),
    )
}

/// The bytes that set a dynamic color, or restore its default.
pub open spec fn color_bytes(n: nat, color: Option<Color>) -> Seq<u8> {
    match color {
        Some(c) => set_color_bytes(n, c),
        None => osc_bare(100 + n),
    }
}

/// A screen with this foreground color, or the terminal's own.
pub open spec fn foreground_color_set(s: ScreenView, color: Option<Color>) -> ScreenView {
    tracked_change(
        s,
        s.state.foreground_color == color,
        StateView { foreground_color: color, ..s.state },
        color_bytes(10, color),
    )
}

/// A screen with this background color, or the terminal's own.
pub open spec fn background_color_set(s: ScreenView, color: Option<Color>) -> ScreenView {
    tracked_change(
        s,
        s.state.background_color == color,
        StateView { background_color: color, ..s.state },
        color_bytes(11, color),
    )
}

/// A screen with this cursor color, or the terminal's own.
pub open spec fn cursor_color_set(s: ScreenView, color: Option<Color>) -> ScreenView {
    tracked_change(
        s,
        s.state.cursor_color == color,
        StateView { cursor_color: color, ..s.state },
        color_bytes(12, color),
    )
}

/// A screen without palette overrides.
pub open spec fn palette_cleared(s: ScreenView) -> ScreenView {
    tracked_change(
        s,
        s.state.palette.is_empty(),
        StateView { palette: Map::empty(), ..s.state },
        osc_bare(104),
    )
}

/// A screen with this pointer shape, or the terminal's own.
pub open spec fn pointer_shape_set(s: ScreenView, shape: Option<Seq<char>>) -> ScreenView {
    tracked_change(
        s,
        s.state.pointer_shape == shape,
        StateView { pointer_shape: shape, ..s.state },
        pointer_shape_bytes(
            match shape {
                Some(name) => encode_utf8(name),
                None => "default".spec_bytes(),
            },
        ),
    )
}

/// The bytes that set the palette entries from `i` on that are overridden.
pub open spec fn palette_bytes(palette: Map<u8, Color>, i: int) -> Seq<u8>
    decreases 256 - i,
{
    if i >= 256 {
        Seq::empty()
    } else if palette.contains_key(i as u8) {
        set_palette_bytes(i as u8, palette[i as u8]) + palette_bytes(palette, i + 1)
    } else {
        palette_bytes(palette, i + 1)
    }
}

/// The bytes that set the window title and the icon name, given as texts: one
/// sequence for both where they are the same.
pub open spec fn title_bytes(
    window_title: Option<Seq<char>>,
    icon_name: Option<Seq<char>>,
    window_text: Seq<char>,
    icon_text: Seq<char>,
) -> Seq<u8> {
    if window_title is Some && window_title == icon_name {
        osc_text(0, encode_utf8(window_text))
    } else {
        if_held(window_title is Some, osc_text(2, encode_utf8(window_text))) + if_held(
            icon_name is Some,
            osc_text(1, encode_utf8(icon_text)),
        )
    }
}

/// The bytes that clear the titles that are overridden.
pub open spec fn title_reset_bytes(st: StateView) -> Seq<u8> {
    title_bytes(st.window_title, st.icon_name, ""@, ""@)
}

/// The bytes that set the titles that are overridden.
pub open spec fn title_set_bytes(st: StateView) -> Seq<u8> {
    title_bytes(st.window_title, st.icon_name, st.window_title->0, st.icon_name->0)
}

/// Output with the teardown of every mode held that rendering does not depend on.
pub open spec fn torn_down(out: Seq<u8>, st: StateView) -> Seq<u8> {
    out + if_held(
        st.cursor_style != CursorStyle::Default,
        cursor_style_bytes(CursorStyle::Default),
    ) + if_held(st.bracketed_paste, reset_bytes(Mode::bracketed_paste())) + if_held(
        st.focus_events,
        reset_bytes(Mode::focus()),
    ) + if_held(st.mouse is Some, mode_sequence(mouse_modes(st.mouse->0), RESET_FINAL)) + if_held(
        st.color_scheme_updates,
        reset_bytes(Mode::light_dark()),
    ) + if_held(st.in_band_resize, reset_bytes(Mode::in_band_resize())) + if_held(
        st.visibility_reports,
        reset_bytes(Mode::visibility_reports()),
    ) + if_held(
        !(st.modify_other_keys is Disabled),
        RESET_MODIFY_OTHER_KEYS.spec_bytes(),
    ) + if_held(st.foreground_color is Some, osc_bare(110)) + if_held(
        st.background_color is Some,
        osc_bare(111),
    ) + if_held(st.cursor_color is Some, osc_bare(112)) + if_held(
        !st.palette.is_empty(),
        osc_bare(104),
    ) + title_reset_bytes(st) + if_held(
        st.pointer_shape is Some,
        pointer_shape_bytes("default".spec_bytes()),
    )
}

/// Output with every mode held that rendering does not depend on applied again.
pub open spec fn set_up(out: Seq<u8>, st: StateView) -> Seq<u8> {
    out + if_held(
        st.cursor_style != CursorStyle::Default,
        cursor_style_bytes(st.cursor_style),
    ) + if_held(st.color_scheme_updates, set_bytes(Mode::light_dark())) + if_held(
        st.in_band_resize,
        set_bytes(Mode::in_band_resize()),
    ) + if_held(st.visibility_reports, set_bytes(Mode::visibility_reports())) + if_held(
        !(st.modify_other_keys is Disabled),
        modify_other_keys_bytes(st.modify_other_keys),
    ) + if_held(st.bracketed_paste, set_bytes(Mode::bracketed_paste())) + if_held(
        st.focus_events,
        set_bytes(Mode::focus()),
    ) + if_held(st.mouse is Some, mode_sequence(mouse_modes(st.mouse->0), SET_FINAL)) + if_held(
        st.foreground_color is Some,
        set_color_bytes(10, st.foreground_color->0),
    ) + if_held(st.background_color is Some, set_color_bytes(11, st.background_color->0)) + if_held(
        st.cursor_color is Some,
        set_color_bytes(12, st.cursor_color->0),
    ) + palette_bytes(st.palette, 0) + title_set_bytes(st) + if_held(
        st.pointer_shape is Some,
        pointer_shape_bytes(encode_utf8(st.pointer_shape->0)),
    )
}

/// Output with the teardown of the modes that rendering depends on. The keyboard
/// flags are per screen buffer, so they are cleared on both.
pub open spec fn render_torn_down(out: Seq<u8>, st: StateView) -> Seq<u8> {
    let kitty = !st.kitty_keyboard.is_empty();
    out + if_held(!st.cursor_visible, set_bytes(Mode::cursor_visible())) + if_held(
        st.alt_screen && kitty,
        set_keyboard_bytes(KittyKeyboardFlags::empty()),
    ) + if_held(st.alt_screen, reset_bytes(Mode::alt_screen_save_cursor())) + if_held(
        kitty,
        set_keyboard_bytes(KittyKeyboardFlags::empty()),
    ) + if_held(st.grapheme_clusters, reset_bytes(Mode::unicode_core()))
}

/// Output with the modes that rendering depends on applied again, the keyboard flags
/// on both screen buffers.
pub open spec fn render_set_up(out: Seq<u8>, st: StateView) -> Seq<u8> {
    let kitty = !st.kitty_keyboard.is_empty();
    out + if_held(kitty, set_keyboard_bytes(st.kitty_keyboard)) + if_held(
        st.alt_screen,
        set_bytes(Mode::alt_screen_save_cursor()),
    ) + if_held(st.alt_screen && kitty, set_keyboard_bytes(st.kitty_keyboard)) + if_held(
        st.grapheme_clusters,
        set_bytes(Mode::unicode_core()),
    ) + if_held(!st.cursor_visible, reset_bytes(Mode::cursor_visible()))
}

/// A screen with the cursor at the bottom of the last frame.
pub open spec fn cursor_at_bottom(s: ScreenView) -> ScreenView {
    if s.renderer.last_size.height > 0 {
        cursor_sent(s, Position { x: 0, y: (s.renderer.last_size.height - 1) as u16 })
    } else {
        s
    }
}

/// A screen with the teardown of every mode held staged. The modes stay tracked; the
/// cursor is no longer known, since the terminal is handed over.
pub open spec fn reset_staged(s: ScreenView) -> ScreenView {
    let a = cursor_at_bottom(ScreenView { out: torn_down(s.out, s.state), ..s });
    ScreenView {
        out: render_torn_down(a.out, a.state),
        renderer: RendererView { cursor: None, ..a.renderer },
        ..a
    }
}

/// A screen with every mode held applied again.
pub open spec fn restore_staged(s: ScreenView) -> ScreenView {
    ScreenView {
        out: set_up(render_set_up(s.out, s.state), s.state),
        renderer: RendererView {
            saved: if s.state.alt_screen {
                s.renderer.cursor
            } else {
                s.renderer.saved
            },
            ..s.renderer
        },
        ..s
    }
}

/// Write the set sequence of a mode that is held.
fn set_if(out: &mut Vec<u8>, held: bool, mode: Mode)
    ensures
        final(out)@ == old(out)@ + if_held(held, set_bytes(mode)),
{
    if held {
        mode.set(out);
    } else {
        assert(out@ =~= old(out)@ + Seq::<u8>::empty());
    }
}

/// Write the reset sequence of a mode that is held.
fn reset_if(out: &mut Vec<u8>, held: bool, mode: Mode)
    ensures
        final(out)@ == old(out)@ + if_held(held, reset_bytes(mode)),
{
    if held {
        mode.reset(out);
    } else {
        assert(out@ =~= old(out)@ + Seq::<u8>::empty());
    }
}

fn append_if(out: &mut Vec<u8>, held: bool, text: &str)
    ensures
        final(out)@ == old(out)@ + if_held(held, text.spec_bytes()),
{
    if held {
        append_str(out, text);
    } else {
        assert(out@ =~= old(out)@ + Seq::<u8>::empty());
    }
}

fn osc_bare_if(out: &mut Vec<u8>, held: bool, n: u32)
    ensures
        final(out)@ == old(out)@ + if_held(held, osc_bare(n as nat)),
{
    if held {
        write_osc_bare(out, n);
    } else {
        assert(out@ =~= old(out)@ + Seq::<u8>::empty());
    }
}

fn keyboard_if(out: &mut Vec<u8>, held: bool, flags: KittyKeyboardFlags)
    ensures
        final(out)@ == old(out)@ + if_held(held, set_keyboard_bytes(flags)),
{
    if held {
        write_set_kitty_keyboard(out, flags);
    } else {
        assert(out@ =~= old(out)@ + Seq::<u8>::empty());
    }
}

fn cursor_style_if(out: &mut Vec<u8>, held: CursorStyle, style: CursorStyle)
    ensures
        final(out)@ == old(out)@ + if_held(
            held != CursorStyle::Default,
            cursor_style_bytes(style),
        ),
{
    if held != CursorStyle::Default {
        write_cursor_style(out, style);
    } else {
        assert(out@ =~= old(out)@ + Seq::<u8>::empty());
    }
}

fn color_if(out: &mut Vec<u8>, n: u32, color: Option<Color>)
    ensures
        final(out)@ == old(out)@ + if_held(color is Some, set_color_bytes(n as nat, color->0)),
{
    match color {
        Some(c) => write_set_color(out, n, c),
        None => assert(out@ =~= old(out)@ + Seq::<u8>::empty()),
    }
}

/// The modes of a tracking request.
fn list_mouse_modes(tracking: MouseTracking) -> (r: Vec<Mode>)
    ensures
        r@ == mouse_modes(tracking),
{
    let mut modes: Vec<Mode> = Vec::new();
    modes.push(Mode::mouse_normal());
    modes.push(Mode::mouse_button());
    if tracking.motion {
        modes.push(Mode::mouse_any());
    }
    modes.push(Mode::mouse_sgr());
    if tracking.pixels {
        modes.push(Mode::mouse_sgr_pixel());
    }
    assert(modes@ =~= mouse_modes(tracking));
    modes
}

/// Write the set or reset sequence of a tracking request.
fn write_mouse_modes(out: &mut Vec<u8>, tracking: MouseTracking, enable: bool)
    ensures
        final(out)@ == old(out)@ + mode_sequence(
            mouse_modes(tracking),
            if enable {
                SET_FINAL
            } else {
                RESET_FINAL
            },
        ),
{
    let modes = list_mouse_modes(tracking);
    if enable {
        write_set_mode(out, modes.as_slice());
    } else {
        write_reset_mode(out, modes.as_slice());
    }
}

fn mouse_if(out: &mut Vec<u8>, mouse: Option<MouseTracking>, enable: bool)
    ensures
        final(out)@ == old(out)@ + if_held(
            mouse is Some,
            mode_sequence(
                mouse_modes(mouse->0),
                if enable {
                    SET_FINAL
                } else {
                    RESET_FINAL
                },
            ),
        ),
{
    match mouse {
        Some(tracking) => write_mouse_modes(out, tracking, enable),
        None => assert(out@ =~= old(out)@ + Seq::<u8>::empty()),
    }
}

/// Write the reset of every mouse mode.
fn write_mouse_off(out: &mut Vec<u8>)
    ensures
        final(out)@ == old(out)@ + mode_sequence(all_mouse_modes(), RESET_FINAL),
{
    let modes: [Mode; 6] = [
        Mode::mouse_x10(),
        Mode::mouse_normal(),
        Mode::mouse_button(),
        Mode::mouse_any(),
        Mode::mouse_sgr(),
        Mode::mouse_sgr_pixel(),
    ];
    assert(modes@ =~= all_mouse_modes());
    write_reset_mode(out, &modes);
}

fn write_modify_other_keys(out: &mut Vec<u8>, mode: ModifyOtherKeysMode)
    ensures
        final(out)@ == old(out)@ + modify_other_keys_bytes(mode),
{
    match mode {
        ModifyOtherKeysMode::Disabled => append_str(out, RESET_MODIFY_OTHER_KEYS),
        ModifyOtherKeysMode::Mode1 => append_str(out, SET_MODIFY_OTHER_KEYS_1),
        ModifyOtherKeysMode::Mode2 => append_str(out, SET_MODIFY_OTHER_KEYS_2),
    }
}

fn modify_other_keys_if(out: &mut Vec<u8>, mode: ModifyOtherKeysMode)
    ensures
        final(out)@ == old(out)@ + if_held(
            !(mode is Disabled),
            modify_other_keys_bytes(mode),
        ),
{
    if mode != ModifyOtherKeysMode::Disabled {
        write_modify_other_keys(out, mode);
    } else {
        assert(out@ =~= old(out)@ + Seq::<u8>::empty());
    }
}

fn pointer_shape_if(out: &mut Vec<u8>, held: bool, shape: &str)
    ensures
        final(out)@ == old(out)@ + if_held(held, pointer_shape_bytes(shape.spec_bytes())),
{
    if held {
        write_set_pointer_shape(out, shape);
    } else {
        assert(out@ =~= old(out)@ + Seq::<u8>::empty());
    }
}

/// The override of a palette entry.
fn palette_entry(palette: &BTreeMap<u8, Color>, index: u8) -> (r: Option<Color>)
    ensures
        r == palette@.get(index),
{
    broadcast use vstd::laws_cmp::group_laws_cmp;

    match palette.get(&index) {
        Some(color) => Some(*color),
        None => None,
    }
}

/// Write the palette overrides in the order of their index.
fn write_palette(out: &mut Vec<u8>, palette: &BTreeMap<u8, Color>)
    ensures
        final(out)@ == old(out)@ + palette_bytes(palette@, 0),
{
    let ghost start = out@;
    let mut index: u16 = 0;
    while index < 256
        invariant
            index <= 256,
            out@ + palette_bytes(palette@, index as int) == start + palette_bytes(palette@, 0),
        decreases 256 - index,
    {
        let ghost before = out@;
        if let Some(color) = palette_entry(palette, index as u8) {
            write_set_palette_color(out, index as u8, color);
        }
        assert(out@ + palette_bytes(palette@, index + 1) =~= before + palette_bytes(
            palette@,
            index as int,
        ));
        index += 1;
    }
    assert(out@ + palette_bytes(palette@, 256) =~= out@);
}

/// Write the window title and the icon name that are overridden.
fn write_titles(out: &mut Vec<u8>, state: &State, clear: bool)
    ensures
        final(out)@ == old(out)@ + (if clear {
            title_reset_bytes(state@)
        } else {
            title_set_bytes(state@)
        }),
{
    match (&state.window_title, &state.icon_name) {
        (Some(w), Some(i)) => {
            let window_text = if clear {
                ""
            } else {
                w.as_str()
            };
            let icon_text = if clear {
                ""
            } else {
                i.as_str()
            };
            if *w == *i {
                write_window_title_and_icon(out, window_text);
            } else {
                write_window_title(out, window_text);
                write_icon_name(out, icon_text);
                assert(out@ =~= old(out)@ + (osc_text(2, window_text.spec_bytes()) + osc_text(
                    1,
                    icon_text.spec_bytes(),
                )));
            }
        },
        (Some(w), None) => {
            let text = if clear {
                ""
            } else {
                w.as_str()
            };
            write_window_title(out, text);
            assert(out@ =~= old(out)@ + (osc_text(2, text.spec_bytes()) + Seq::<u8>::empty()));
        },
        (None, Some(i)) => {
            let text = if clear {
                ""
            } else {
                i.as_str()
            };
            write_icon_name(out, text);
            assert(out@ =~= old(out)@ + (Seq::<u8>::empty() + osc_text(1, text.spec_bytes())));
        },
        (None, None) => {
            assert(out@ =~= old(out)@ + (Seq::<u8>::empty() + Seq::<u8>::empty()));
        },
    }
}

/// Write the teardown of the modes that rendering does not depend on.
fn write_torn_down(out: &mut Vec<u8>, state: &State)
    ensures
        final(out)@ == torn_down(old(out)@, state@),
{
    cursor_style_if(out, state.cursor_style, CursorStyle::Default);
    reset_if(out, state.bracketed_paste, Mode::bracketed_paste());
    reset_if(out, state.focus_events, Mode::focus());
    mouse_if(out, state.mouse, false);
    reset_if(out, state.color_scheme_updates, Mode::light_dark());
    reset_if(out, state.in_band_resize, Mode::in_band_resize());
    reset_if(out, state.visibility_reports, Mode::visibility_reports());
    append_if(
        out,
        state.modify_other_keys != ModifyOtherKeysMode::Disabled,
        RESET_MODIFY_OTHER_KEYS,
    );
    osc_bare_if(out, state.foreground_color.is_some(), 110);
    osc_bare_if(out, state.background_color.is_some(), 111);
    osc_bare_if(out, state.cursor_color.is_some(), 112);
    osc_bare_if(out, !state.palette.is_empty(), 104);
    write_titles(out, state, true);
    pointer_shape_if(out, state.pointer_shape.is_some(), "default");
}

/// Write the modes again that rendering does not depend on.
fn write_set_up(out: &mut Vec<u8>, state: &State)
    ensures
        final(out)@ == set_up(old(out)@, state@),
{
    cursor_style_if(out, state.cursor_style, state.cursor_style);
    set_if(out, state.color_scheme_updates, Mode::light_dark());
    set_if(out, state.in_band_resize, Mode::in_band_resize());
    set_if(out, state.visibility_reports, Mode::visibility_reports());
    modify_other_keys_if(out, state.modify_other_keys);
    set_if(out, state.bracketed_paste, Mode::bracketed_paste());
    set_if(out, state.focus_events, Mode::focus());
    mouse_if(out, state.mouse, true);
    color_if(out, 10, state.foreground_color);
    color_if(out, 11, state.background_color);
    color_if(out, 12, state.cursor_color);
    write_palette(out, &state.palette);
    write_titles(out, state, false);
    match &state.pointer_shape {
        Some(shape) => write_set_pointer_shape(out, shape.as_str()),
        None => assert(out@ =~= out@ + Seq::<u8>::empty()),
    }
}

/// Write the teardown of the modes that rendering depends on.
fn write_render_torn_down(out: &mut Vec<u8>, state: &State)
    ensures
        final(out)@ == render_torn_down(old(out)@, state@),
{
    let kitty = !state.kitty_keyboard.is_empty();
    set_if(out, !state.cursor_visible, Mode::cursor_visible());
    keyboard_if(out, state.alt_screen && kitty, KittyKeyboardFlags::empty());
    reset_if(out, state.alt_screen, Mode::alt_screen_save_cursor());
    keyboard_if(out, kitty, KittyKeyboardFlags::empty());
    reset_if(out, state.grapheme_clusters, Mode::unicode_core());
}

/// Write the modes again that rendering depends on.
fn write_render_set_up(out: &mut Vec<u8>, state: &State)
    ensures
        final(out)@ == render_set_up(old(out)@, state@),
{
    let kitty = !state.kitty_keyboard.is_empty();
    keyboard_if(out, kitty, state.kitty_keyboard);
    set_if(out, state.alt_screen, Mode::alt_screen_save_cursor());
    keyboard_if(out, state.alt_screen && kitty, state.kitty_keyboard);
    set_if(out, state.grapheme_clusters, Mode::unicode_core());
    reset_if(out, !state.cursor_visible, Mode::cursor_visible());
}

/// Whether `held` is `color`.
fn is_color(held: Option<Color>, color: Color) -> (r: bool)
    ensures
        r == (held == Some(color)),
{
    match held {
        Some(c) => c == color,
        None => false,
    }
}

/// Whether `held` is the text `text`.
fn is_text(held: &Option<String>, text: &str) -> (r: bool)
    ensures
        r == (text_view(*held) == Some(text@)),
{
    match held {
        Some(t) => *t == text.to_owned(),
        None => false,
    }
}

/// Whether `held` is what setting `title` tracks.
fn is_title(held: &Option<String>, title: &str) -> (r: bool)
    ensures
        r == (text_view(*held) == tracked_title(title@)),
{
    if title.is_empty() {
        held.is_none()
    } else {
        is_text(held, title)
    }
}

/// The title to track: none for an empty one.
fn title_to_track(title: &str) -> (r: Option<String>)
    ensures
        text_view(r) == tracked_title(title@),
{
    if title.is_empty() {
        None
    } else {
        Some(title.to_owned())
    }
}

impl Screen {
    /// Set the cursor shape and blinking state (DECSCUSR).
    pub fn set_cursor_style(&mut self, shape: CursorShape, blinking: bool)
        requires
            old(self).well_formed(),
        ensures
            final(self).well_formed(),
            final(self)@ == cursor_styled(old(self)@, shape.style(blinking)),
    {
        let style = shape.style(blinking);
        self.apply_cursor_style(style);
    }

    fn apply_cursor_style(&mut self, style: CursorStyle)
        requires
            old(self).well_formed(),
        ensures
            final(self).well_formed(),
            final(self)@ == cursor_styled(old(self)@, style),
    {
        if self.state.cursor_style == style {
            return;
        }
        write_cursor_style(&mut self.out, style);
        self.state.cursor_style = style;
    }

    /// Ring the terminal bell.
    pub fn beep(&mut self)
        requires
            old(self).well_formed(),
        ensures
            final(self).well_formed(),
            final(self)@ == staged(old(self)@, seq![0x07u8]),
    {
        self.out.push(0x07);
        assert(self.out@ =~= old(self)@.out + seq![0x07u8]);
    }

    /// Set the pointer shape by name (`OSC 22`). The shape is tracked.
    pub fn set_pointer_shape(&mut self, shape: &str)
        requires
            old(self).well_formed(),
        ensures
            final(self).well_formed(),
            final(self)@ == pointer_shape_set(old(self)@, Some(shape@)),
    {
        if is_text(&self.state.pointer_shape, shape) {
            return;
        }
        write_set_pointer_shape(&mut self.out, shape);
        self.state.pointer_shape = Some(shape.to_owned());
    }

    /// Reset the pointer shape to the terminal default.
    pub fn reset_pointer_shape(&mut self)
        requires
            old(self).well_formed(),
        ensures
            final(self).well_formed(),
            final(self)@ == pointer_shape_set(old(self)@, None),
    {
        if self.state.pointer_shape.is_none() {
            return;
        }
        write_set_pointer_shape(&mut self.out, "default");
        self.state.pointer_shape = None;
    }

    /// Enable mouse tracking. Button tracking, drags and SGR encoding are always
    /// requested; `tracking` adds to them. The request is tracked. Inline, it also
    /// asks where the managed area begins.
    pub fn enable_mouse(&mut self, tracking: MouseTracking)
        requires
            old(self).well_formed(),
        ensures
            final(self).well_formed(),
            final(self)@ == mouse_enabled(old(self)@, tracking),
    {
        self.turn_on_mouse(tracking);
        self.write_request_origin();
    }

    fn turn_on_mouse(&mut self, tracking: MouseTracking)
        requires
            old(self).well_formed(),
        ensures
            final(self).well_formed(),
            final(self)@ == mouse_turned_on(old(self)@, tracking),
    {
        write_mouse_off(&mut self.out);
        write_mouse_modes(&mut self.out, tracking, true);
        self.state.mouse = Some(tracking);
    }

    /// Disable all mouse tracking modes and encodings.
    pub fn disable_mouse(&mut self)
        requires
            old(self).well_formed(),
        ensures
            final(self).well_formed(),
            final(self)@ == mouse_disabled(old(self)@),
    {
        write_mouse_off(&mut self.out);
        self.state.mouse = None;
    }

    /// Ask where the managed area begins, and return whether anything was staged.
    pub(crate) fn write_request_origin(&mut self) -> (r: bool)
        requires
            old(self).well_formed(),
        ensures
            final(self).well_formed(),
            final(self)@ == origin_requested(old(self)@),
            r == !(old(self)@.state.alt_screen || !old(self)@.options.track_origin || old(
                self,
            )@.state.mouse is None),
    {
        if self.state.alt_screen || !self.options.track_origin || self.state.mouse.is_none() {
            return false;
        }
        self.move_cursor_to(Position::origin());
        append_str(&mut self.out, REQUEST_CURSOR_POSITION);
        self.origin_pending = true;
        true
    }

    /// Enable or disable inline origin tracking. Enabling it asks for a fresh origin;
    /// disabling it keeps the last one.
    pub fn set_origin_tracking(&mut self, enabled: bool)
        requires
            old(self).well_formed(),
        ensures
            final(self).well_formed(),
            ({
                let s = old(self)@;
                let t = ScreenView {
                    options: crate::screen::ScreenOptions { track_origin: enabled, ..s.options },
                    ..s
                };
                final(self)@ == (if enabled {
                    origin_requested(t)
                } else {
                    t
                })
            }),
    {
        self.options.track_origin = enabled;
        if enabled {
            self.write_request_origin();
        }
    }

    /// Enable bracketed paste (mode 2004).
    pub fn enable_bracketed_paste(&mut self)
        requires
            old(self).well_formed(),
        ensures
            final(self).well_formed(),
            final(self)@ == bracketed_paste_set(old(self)@, true),
    {
        if self.state.bracketed_paste {
            return;
        }
        Mode::bracketed_paste().set(&mut self.out);
        self.state.bracketed_paste = true;
    }

    /// Disable bracketed paste (mode 2004).
    pub fn disable_bracketed_paste(&mut self)
        requires
            old(self).well_formed(),
        ensures
            final(self).well_formed(),
            final(self)@ == bracketed_paste_set(old(self)@, false),
    {
        if !self.state.bracketed_paste {
            return;
        }
        Mode::bracketed_paste().reset(&mut self.out);
        self.state.bracketed_paste = false;
    }

    /// Enable focus in/out reporting (mode 1004).
    pub fn enable_focus_events(&mut self)
        requires
            old(self).well_formed(),
        ensures
            final(self).well_formed(),
            final(self)@ == focus_events_set(old(self)@, true),
    {
        if self.state.focus_events {
            return;
        }
        Mode::focus().set(&mut self.out);
        self.state.focus_events = true;
    }

    /// Disable focus in/out reporting (mode 1004).
    pub fn disable_focus_events(&mut self)
        requires
            old(self).well_formed(),
        ensures
            final(self).well_formed(),
            final(self)@ == focus_events_set(old(self)@, false),
    {
        if !self.state.focus_events {
            return;
        }
        Mode::focus().reset(&mut self.out);
        self.state.focus_events = false;
    }

    /// Enable color-scheme update notifications (mode 2031).
    pub fn enable_color_scheme_updates(&mut self)
        requires
            old(self).well_formed(),
        ensures
            final(self).well_formed(),
            final(self)@ == color_scheme_updates_set(old(self)@, true),
    {
        if self.state.color_scheme_updates {
            return;
        }
        Mode::light_dark().set(&mut self.out);
        self.state.color_scheme_updates = true;
    }

    /// Disable color-scheme update notifications (mode 2031).
    pub fn disable_color_scheme_updates(&mut self)
        requires
            old(self).well_formed(),
        ensures
            final(self).well_formed(),
            final(self)@ == color_scheme_updates_set(old(self)@, false),
    {
        if !self.state.color_scheme_updates {
            return;
        }
        Mode::light_dark().reset(&mut self.out);
        self.state.color_scheme_updates = false;
    }

    /// Enable in-band resize notifications (mode 2048).
    pub fn enable_in_band_resize(&mut self)
        requires
            old(self).well_formed(),
        ensures
            final(self).well_formed(),
            final(self)@ == in_band_resize_set(old(self)@, true),
    {
        if self.state.in_band_resize {
            return;
        }
        Mode::in_band_resize().set(&mut self.out);
        self.state.in_band_resize = true;
    }

    /// Disable in-band resize notifications (mode 2048).
    pub fn disable_in_band_resize(&mut self)
        requires
            old(self).well_formed(),
        ensures
            final(self).well_formed(),
            final(self)@ == in_band_resize_set(old(self)@, false),
    {
        if !self.state.in_band_resize {
            return;
        }
        Mode::in_band_resize().reset(&mut self.out);
        self.state.in_band_resize = false;
    }

    /// Enable terminal visibility reports (mode 2033).
    pub fn enable_visibility_reports(&mut self)
        requires
            old(self).well_formed(),
        ensures
            final(self).well_formed(),
            final(self)@ == visibility_reports_set(old(self)@, true),
    {
        if self.state.visibility_reports {
            return;
        }
        Mode::visibility_reports().set(&mut self.out);
        self.state.visibility_reports = true;
    }

    /// Disable terminal visibility reports (mode 2033).
    pub fn disable_visibility_reports(&mut self)
        requires
            old(self).well_formed(),
        ensures
            final(self).well_formed(),
            final(self)@ == visibility_reports_set(old(self)@, false),
    {
        if !self.state.visibility_reports {
            return;
        }
        Mode::visibility_reports().reset(&mut self.out);
        self.state.visibility_reports = false;
    }

    /// Set both the window title and the icon name (`OSC 0`). An empty title clears
    /// both overrides.
    pub fn set_title(&mut self, title: &str)
        requires
            old(self).well_formed(),
        ensures
            final(self).well_formed(),
            final(self)@ == title_set(old(self)@, title@),
    {
        if is_title(&self.state.window_title, title) && is_title(&self.state.icon_name, title) {
            return;
        }
        self.store_title(title);
    }

    fn store_title(&mut self, title: &str)
        requires
            old(self).well_formed(),
        ensures
            final(self).well_formed(),
            final(self)@ == title_stored(old(self)@, title@),
    {
        write_window_title_and_icon(&mut self.out, title);
        self.state.window_title = title_to_track(title);
        self.state.icon_name = title_to_track(title);
    }

    /// Set the window title only (`OSC 2`). An empty title clears the override.
    pub fn set_window_title(&mut self, title: &str)
        requires
            old(self).well_formed(),
        ensures
            final(self).well_formed(),
            final(self)@ == window_title_set(old(self)@, title@),
    {
        if is_title(&self.state.window_title, title) {
            return;
        }
        write_window_title(&mut self.out, title);
        self.state.window_title = title_to_track(title);
    }

    /// Set the icon name only (`OSC 1`). An empty name clears the override.
    pub fn set_icon_title(&mut self, title: &str)
        requires
            old(self).well_formed(),
        ensures
            final(self).well_formed(),
            final(self)@ == icon_name_set(old(self)@, title@),
    {
        if is_title(&self.state.icon_name, title) {
            return;
        }
        write_icon_name(&mut self.out, title);
        self.state.icon_name = title_to_track(title);
    }

    /// Set the xterm modifyOtherKeys mode. The mode is tracked.
    pub fn set_modify_other_keys(&mut self, mode: ModifyOtherKeysMode)
        requires
            old(self).well_formed(),
        ensures
            final(self).well_formed(),
            final(self)@ == modify_other_keys_set(old(self)@, mode),
    {
        if self.state.modify_other_keys == mode {
            return;
        }
        write_modify_other_keys(&mut self.out, mode);
        self.state.modify_other_keys = mode;
    }

    /// Set the default foreground color (`OSC 10`). The override is tracked.
    pub fn set_foreground_color(&mut self, color: Color)
        requires
            old(self).well_formed(),
        ensures
            final(self).well_formed(),
            final(self)@ == foreground_color_set(old(self)@, Some(color)),
    {
        if is_color(self.state.foreground_color, color) {
            return;
        }
        write_set_color(&mut self.out, 10, color);
        self.state.foreground_color = Some(color);
    }

    /// Restore the terminal's default foreground color (`OSC 110`).
    pub fn reset_foreground_color(&mut self)
        requires
            old(self).well_formed(),
        ensures
            final(self).well_formed(),
            final(self)@ == foreground_color_set(old(self)@, None),
    {
        if self.state.foreground_color.is_none() {
            return;
        }
        write_osc_bare(&mut self.out, 110);
        self.state.foreground_color = None;
    }

    /// Request the default foreground color (`OSC 10 ; ?`).
    pub fn request_foreground_color(&mut self)
        requires
            old(self).well_formed(),
        ensures
            final(self).well_formed(),
            final(self)@ == staged(old(self)@, osc_text(10, "?".spec_bytes())),
    {
        write_request_color(&mut self.out, 10);
    }

    /// Set the default background color (`OSC 11`). The override is tracked.
    pub fn set_background_color(&mut self, color: Color)
        requires
            old(self).well_formed(),
        ensures
            final(self).well_formed(),
            final(self)@ == background_color_set(old(self)@, Some(color)),
    {
        if is_color(self.state.background_color, color) {
            return;
        }
        write_set_color(&mut self.out, 11, color);
        self.state.background_color = Some(color);
    }

    /// Restore the terminal's default background color (`OSC 111`).
    pub fn reset_background_color(&mut self)
        requires
            old(self).well_formed(),
        ensures
            final(self).well_formed(),
            final(self)@ == background_color_set(old(self)@, None),
    {
        if self.state.background_color.is_none() {
            return;
        }
        write_osc_bare(&mut self.out, 111);
        self.state.background_color = None;
    }

    /// Request the default background color (`OSC 11 ; ?`).
    pub fn request_background_color(&mut self)
        requires
            old(self).well_formed(),
        ensures
            final(self).well_formed(),
            final(self)@ == staged(old(self)@, osc_text(11, "?".spec_bytes())),
    {
        write_request_color(&mut self.out, 11);
    }

    /// Set the cursor color (`OSC 12`). The override is tracked.
    pub fn set_cursor_color(&mut self, color: Color)
        requires
            old(self).well_formed(),
        ensures
            final(self).well_formed(),
            final(self)@ == cursor_color_set(old(self)@, Some(color)),
    {
        if is_color(self.state.cursor_color, color) {
            return;
        }
        write_set_color(&mut self.out, 12, color);
        self.state.cursor_color = Some(color);
    }

    /// Restore the terminal's cursor color (`OSC 112`).
    pub fn reset_cursor_color(&mut self)
        requires
            old(self).well_formed(),
        ensures
            final(self).well_formed(),
            final(self)@ == cursor_color_set(old(self)@, None),
    {
        if self.state.cursor_color.is_none() {
            return;
        }
        write_osc_bare(&mut self.out, 112);
        self.state.cursor_color = None;
    }

    /// Request the cursor color (`OSC 12 ; ?`).
    pub fn request_cursor_color(&mut self)
        requires
            old(self).well_formed(),
        ensures
            final(self).well_formed(),
            final(self)@ == staged(old(self)@, osc_text(12, "?".spec_bytes())),
    {
        write_request_color(&mut self.out, 12);
    }

    /// Set a palette color (`OSC 4`). The override is tracked.
    pub fn set_palette_color(&mut self, index: u8, color: Color)
        requires
            old(self).well_formed(),
        ensures
            final(self).well_formed(),
            final(self)@ == palette_color_set(old(self)@, index, color),
    {
        broadcast use vstd::laws_cmp::group_laws_cmp;

        if is_color(palette_entry(&self.state.palette, index), color) {
            return;
        }
        write_set_palette_color(&mut self.out, index, color);
        self.state.palette.insert(index, color);
    }

    /// Reset one palette color (`OSC 104 ; index`).
    pub fn reset_palette_color(&mut self, index: u8)
        requires
            old(self).well_formed(),
        ensures
            final(self).well_formed(),
            final(self)@ == palette_color_reset(old(self)@, index),
    {
        broadcast use vstd::laws_cmp::group_laws_cmp;

        if palette_entry(&self.state.palette, index).is_none() {
            return;
        }
        write_reset_palette_color(&mut self.out, index);
        self.state.palette.remove(&index);
    }

    /// Reset the entire palette (`OSC 104`).
    pub fn reset_palette_colors(&mut self)
        requires
            old(self).well_formed(),
        ensures
            final(self).well_formed(),
            final(self)@ == palette_cleared(old(self)@),
    {
        if self.state.palette.is_empty() {
            return;
        }
        write_osc_bare(&mut self.out, 104);
        self.state.palette.clear();
    }

    /// Request a palette color (`OSC 4 ; index ; ?`).
    pub fn request_palette_color(&mut self, index: u8)
        requires
            old(self).well_formed(),
        ensures
            final(self).well_formed(),
            final(self)@ == staged(
                old(self)@,
                osc_text(4, digits(index as nat) + ";?".spec_bytes()),
            ),
    {
        write_request_palette_color(&mut self.out, index);
    }

    /// Request a mode's current setting (DECRQM).
    pub fn request_mode(&mut self, mode: Mode)
        requires
            old(self).well_formed(),
        ensures
            final(self).well_formed(),
            final(self)@ == staged(old(self)@, request_bytes(mode)),
    {
        mode.request(&mut self.out);
    }

    /// Request the window size in pixels.
    pub fn request_window_pixel_size(&mut self)
        requires
            old(self).well_formed(),
        ensures
            final(self).well_formed(),
            final(self)@ == staged(old(self)@, REQUEST_WINDOW_PIXEL_SIZE.spec_bytes()),
    {
        append_str(&mut self.out, REQUEST_WINDOW_PIXEL_SIZE);
    }

    /// Request the cell size in pixels.
    pub fn request_cell_pixel_size(&mut self)
        requires
            old(self).well_formed(),
        ensures
            final(self).well_formed(),
            final(self)@ == staged(old(self)@, REQUEST_CELL_PIXEL_SIZE.spec_bytes()),
    {
        append_str(&mut self.out, REQUEST_CELL_PIXEL_SIZE);
    }

    /// Request the active Kitty keyboard flags.
    pub fn request_kitty_keyboard(&mut self)
        requires
            old(self).well_formed(),
        ensures
            final(self).well_formed(),
            final(self)@ == staged(old(self)@, REQUEST_KITTY_KEYBOARD.spec_bytes()),
    {
        append_str(&mut self.out, REQUEST_KITTY_KEYBOARD);
    }

    /// Request the modifyOtherKeys state.
    pub fn request_modify_other_keys(&mut self)
        requires
            old(self).well_formed(),
        ensures
            final(self).well_formed(),
            final(self)@ == staged(old(self)@, QUERY_MODIFY_OTHER_KEYS.spec_bytes()),
    {
        append_str(&mut self.out, QUERY_MODIFY_OTHER_KEYS);
    }

    /// Request the cursor position.
    pub fn request_cursor_position(&mut self)
        requires
            old(self).well_formed(),
        ensures
            final(self).well_formed(),
            final(self)@ == staged(old(self)@, REQUEST_CURSOR_POSITION.spec_bytes()),
    {
        append_str(&mut self.out, REQUEST_CURSOR_POSITION);
    }

    /// Request the current color scheme.
    pub fn request_color_scheme(&mut self)
        requires
            old(self).well_formed(),
        ensures
            final(self).well_formed(),
            final(self)@ == staged(old(self)@, REQUEST_LIGHT_DARK_REPORT.spec_bytes()),
    {
        append_str(&mut self.out, REQUEST_LIGHT_DARK_REPORT);
    }

    /// Request the current visibility, without subscribing to changes.
    pub fn request_visibility(&mut self)
        requires
            old(self).well_formed(),
        ensures
            final(self).well_formed(),
            final(self)@ == staged(old(self)@, REQUEST_VISIBILITY_REPORT.spec_bytes()),
    {
        append_str(&mut self.out, REQUEST_VISIBILITY_REPORT);
    }

    /// Set the system clipboard (`OSC 52`). `data` is Base64-encoded for transport.
    pub fn set_system_clipboard(&mut self, data: &[u8])
        requires
            old(self).well_formed(),
        ensures
            final(self).well_formed(),
            final(self)@ == staged(old(self)@, set_clipboard_bytes(SYSTEM_CLIPBOARD, data@)),
    {
        write_set_clipboard(&mut self.out, SYSTEM_CLIPBOARD, data);
    }

    /// Request the system clipboard (`OSC 52 ; ?`).
    pub fn request_system_clipboard(&mut self)
        requires
            old(self).well_formed(),
        ensures
            final(self).well_formed(),
            final(self)@ == staged(old(self)@, osc_text(52, seq![SYSTEM_CLIPBOARD, 0x3bu8, 0x3fu8])),
    {
        write_request_clipboard(&mut self.out, SYSTEM_CLIPBOARD);
    }

    /// Set the primary selection (`OSC 52`). `data` is Base64-encoded for transport.
    pub fn set_primary_clipboard(&mut self, data: &[u8])
        requires
            old(self).well_formed(),
        ensures
            final(self).well_formed(),
            final(self)@ == staged(old(self)@, set_clipboard_bytes(PRIMARY_CLIPBOARD, data@)),
    {
        write_set_clipboard(&mut self.out, PRIMARY_CLIPBOARD, data);
    }

    /// Request the primary selection (`OSC 52 ; ?`).
    pub fn request_primary_clipboard(&mut self)
        requires
            old(self).well_formed(),
        ensures
            final(self).well_formed(),
            final(self)@ == staged(
                old(self)@,
                osc_text(52, seq![PRIMARY_CLIPBOARD, 0x3bu8, 0x3fu8]),
            ),
    {
        write_request_clipboard(&mut self.out, PRIMARY_CLIPBOARD);
    }

    /// Stage the teardown of every mode held. The tracked modes do not change, so
    /// that [`restore`](Self::restore) applies the same ones again.
    pub(crate) fn reset(&mut self)
        requires
            old(self).well_formed(),
        ensures
            final(self).well_formed(),
            final(self)@ == reset_staged(old(self)@),
    {
        write_torn_down(&mut self.out, &self.state);
        let last = self.renderer.last_size();
        if last.height > 0 {
            self.renderer.move_to(&mut self.out, Position { x: 0, y: last.height - 1 });
        }
        write_render_torn_down(&mut self.out, &self.state);
        self.renderer.set_cursor(None);
    }

    /// Stage every mode held again, those that rendering depends on first.
    pub(crate) fn restore(&mut self)
        requires
            old(self).well_formed(),
        ensures
            final(self).well_formed(),
            final(self)@ == restore_staged(old(self)@),
    {
        if self.state.alt_screen {
            self.renderer.save_cursor();
        }
        write_render_set_up(&mut self.out, &self.state);
        write_set_up(&mut self.out, &self.state);
    }
}

} // verus!
