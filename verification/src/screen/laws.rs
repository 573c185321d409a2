//! What holds across the operations of a [`Screen`](crate::screen::Screen).

use crate::ansi::cursor::CursorStyle;
use crate::ansi::mode::Mode;
use crate::ansi::query::REQUEST_PRIMARY_DA;
use crate::color::{Color, Profile};
use crate::event::mouse::Mouse;
use crate::event::{EventView, ModifyOtherKeysMode};
use crate::layout::{Position, Winsize};
use crate::screen::modes::{
    bracketed_paste_set, color_scheme_updates_set, cursor_styled, focus_events_set,
    in_band_resize_set, modify_other_keys_set, origin_requested, palette_bytes,
    palette_color_set, render_set_up, render_torn_down, reset_staged, restore_staged, set_up,
    title_set, torn_down, visibility_reports_set,
};
use crate::screen::observe::{
    attributes_noted, attributes_observed, clipped_origin, keyboard_enhanced, mode_noted,
    mode_observed, mouse_preferred, observed, position_observed, reply_observed, resize_preferred,
    size_observed, terminal_height, window_size_cached, with_caps,
};
use crate::screen::renderer::frame_changes;
use crate::screen::session::{
    autoresized, drain_step, echo_step, popped, prepared, queried, resumed, settled_step,
    started, tab_stops_reset, with_profile, DrainStage,
};
use crate::screen::state::{no_modes, Capabilities, StateView};
use crate::screen::{
    alt_screen_set, cursor_move_due, effective_origin, framed, inserted_above, relative_mouse,
    rendered, ScreenOptions, ScreenView,
};
use vstd::prelude::*;
use vstd::string::*;

verus! {

/// Tearing the modes down and applying them again only writes: the tracked modes, what is
/// known of the terminal and the drawn cells stay, so that what is applied again is what
/// was torn down.
pub proof fn law_teardown_keeps_tracked_modes(s: ScreenView)
    ensures
        reset_staged(s).state == s.state,
        restore_staged(s).state == s.state,
        restore_staged(reset_staged(s)).state == s.state,
        reset_staged(s).caps == s.caps,
        restore_staged(s).caps == s.caps,
        reset_staged(s).front == s.front,
        restore_staged(s).front == s.front,
{
}

/// After a teardown the position of the cursor is unknown, since the terminal is handed
/// over.
pub proof fn law_teardown_forgets_cursor(s: ScreenView)
    ensures
        reset_staged(s).renderer.cursor is None,
{
}

/// Where no mode is held, there is nothing to tear down and nothing to apply again.
pub proof fn law_no_modes_stage_nothing(out: Seq<u8>, st: StateView)
    requires
        st == (StateView {
            sync_updates: st.sync_updates,
            desired_cursor: st.desired_cursor,
            ..no_modes()
        }),
    ensures
        torn_down(out, st) == out,
        set_up(out, st) == out,
        render_torn_down(out, st) == out,
        render_set_up(out, st) == out,
{
    lemma_no_palette(st.palette, 0);
    assert(out + Seq::<u8>::empty() =~= out);
    assert(Seq::<u8>::empty() + Seq::<u8>::empty() =~= Seq::<u8>::empty());
}

/// An empty palette sets nothing.
proof fn lemma_no_palette(palette: Map<u8, Color>, i: int)
    requires
        palette == Map::<u8, Color>::empty(),
    ensures
        palette_bytes(palette, i) == Seq::<u8>::empty(),
    decreases 256 - i,
{
    if i < 256 {
        lemma_no_palette(palette, i + 1);
    }
}

/// Setting what is already set stages nothing: a setter, called twice, does what it does
/// called once.
pub proof fn law_setters_settle(
    s: ScreenView,
    on: bool,
    style: CursorStyle,
    mode: ModifyOtherKeysMode,
    title: Seq<char>,
    index: u8,
    color: Color,
)
    ensures
        bracketed_paste_set(bracketed_paste_set(s, on), on) == bracketed_paste_set(s, on),
        focus_events_set(focus_events_set(s, on), on) == focus_events_set(s, on),
        color_scheme_updates_set(color_scheme_updates_set(s, on), on)
            == color_scheme_updates_set(s, on),
        in_band_resize_set(in_band_resize_set(s, on), on) == in_band_resize_set(s, on),
        visibility_reports_set(visibility_reports_set(s, on), on) == visibility_reports_set(
            s,
            on,
        ),
        cursor_styled(cursor_styled(s, style), style) == cursor_styled(s, style),
        modify_other_keys_set(modify_other_keys_set(s, mode), mode) == modify_other_keys_set(
            s,
            mode,
        ),
        title_set(title_set(s, title), title) == title_set(s, title),
        palette_color_set(palette_color_set(s, index, color), index, color)
            == palette_color_set(s, index, color),
{
}

/// Leaving the alternate screen brings back the cursor of the main screen.
pub proof fn law_alt_screen_returns_cursor(s: ScreenView)
    requires
        !s.state.alt_screen,
    ensures
        ({
            let back = alt_screen_set(alt_screen_set(s, true), false);
            &&& back.renderer.cursor == s.renderer.cursor
            &&& back.state == s.state
            &&& back.renderer.relative_cursor
            &&& !back.renderer.fullscreen
        }),
{
}

/// A frame that has been rendered is not rendered again: a second render stages nothing.
pub proof fn law_render_settles(s: ScreenView)
    ensures
        rendered(rendered(s)) == rendered(s),
{
    let t = framed(s);
    assert(!frame_changes(t.renderer, t.front));
    assert(!cursor_move_due(t));
}

/// Lines inserted above the surface leave it in place: a render that had nothing to draw
/// has nothing to draw after it either, unless the cursor has a place to go back to.
pub proof fn law_insertion_needs_no_redraw(s: ScreenView, content: Seq<char>, widths: Seq<u16>)
    requires
        !frame_changes(s.renderer, s.front),
        s.state.desired_cursor is None,
    ensures
        rendered(inserted_above(s, content, widths)) == inserted_above(s, content, widths),
{
}

/// No event takes back what the terminal is known to support.
pub proof fn law_capabilities_only_grow(s: ScreenView, event: EventView)
    ensures
        s.caps.within(observed(s, event).caps),
{
    lemma_reply_grows(s, event);
    lemma_size_keeps(reply_observed(s, event), event);
}

proof fn lemma_mode_noting_grows(caps: Capabilities, mode: Mode)
    ensures
        caps.within(mode_noted(caps, mode)),
        caps.within(Capabilities { synchronized_output: true, ..caps }),
        caps.within(Capabilities { grapheme_clusters: true, ..caps }),
{
    reveal(Capabilities::within);
}

proof fn lemma_attribute_noting_grows(caps: Capabilities, attrs: Seq<Option<u32>>)
    ensures
        caps.within(attributes_noted(caps, attrs)),
{
    reveal(Capabilities::within);
}

proof fn lemma_feature_noting_grows(caps: Capabilities)
    ensures
        caps.within(caps),
        caps.within(Capabilities { kitty_keyboard: true, ..caps }),
        caps.within(Capabilities { modify_other_keys: true, ..caps }),
        caps.within(Capabilities { true_color: true, ..caps }),
{
    reveal(Capabilities::within);
}

proof fn lemma_reply_grows(s: ScreenView, event: EventView)
    ensures
        s.caps.within(reply_observed(s, event).caps),
{
    if event is ModeReport {
        lemma_mode_reply_grows(s, event);
    } else if event is PrimaryDeviceAttributes {
        lemma_attribute_reply_grows(s, event);
    } else if event is KittyKeyboardEnhancements || event is ModifyOtherKeys || event is Termcap {
        lemma_feature_reply_grows(s, event);
    } else {
        lemma_feature_noting_grows(s.caps);
        lemma_other_replies(s, event);
    }
}

proof fn lemma_mode_reply_grows(s: ScreenView, event: EventView)
    requires
        event is ModeReport,
    ensures
        s.caps.within(reply_observed(s, event).caps),
{
    lemma_feature_noting_grows(s.caps);
    lemma_mode_grows(s, event->mode);
    assert(reply_observed(s, event) == mode_observed(s, event->mode) || reply_observed(s, event)
        == s) by {
        reveal(reply_observed);
    }
}

proof fn lemma_attribute_reply_grows(s: ScreenView, event: EventView)
    requires
        event is PrimaryDeviceAttributes,
    ensures
        s.caps.within(reply_observed(s, event).caps),
{
    let attrs = event->PrimaryDeviceAttributes_0;
    lemma_attributes_grow(s, attrs);
    lemma_attribute_noting_grows(s.caps, attrs);
    assert(reply_observed(s, event) == attributes_observed(s, attrs)) by {
        reveal(reply_observed);
    }
}

proof fn lemma_feature_reply_grows(s: ScreenView, event: EventView)
    requires
        event is KittyKeyboardEnhancements || event is ModifyOtherKeys || event is Termcap,
    ensures
        s.caps.within(reply_observed(s, event).caps),
{
    lemma_feature_noting_grows(s.caps);
    reveal(reply_observed);
}

proof fn lemma_other_replies(s: ScreenView, event: EventView)
    requires
        !(event is ModeReport),
        !(event is PrimaryDeviceAttributes),
        !(event is KittyKeyboardEnhancements),
        !(event is ModifyOtherKeys),
        !(event is Termcap),
    ensures
        reply_observed(s, event).caps == s.caps,
{
    reveal(reply_observed);
}

proof fn lemma_reply_defaults(s: ScreenView, event: EventView)
    ensures
        s.defaults_applied ==> reply_observed(s, event).defaults_applied,
        !(event is PrimaryDeviceAttributes) ==> reply_observed(s, event).defaults_applied
            == s.defaults_applied,
{
    reveal(reply_observed);
    match event {
        EventView::ModeReport { mode, setting } => {
            lemma_mode_grows(s, mode);
        },
        EventView::PrimaryDeviceAttributes(attrs) => {
            lemma_attributes_grow(s, attrs);
        },
        _ => {},
    }
}

proof fn lemma_mode_grows(s: ScreenView, mode: Mode)
    ensures
        s.caps.within(mode_observed(s, mode).caps),
        mode_observed(s, mode).defaults_applied == s.defaults_applied,
{
    reveal(mode_observed);
    lemma_mode_noting_grows(s.caps, mode);
}

proof fn lemma_attributes_grow(s: ScreenView, attrs: Seq<Option<u32>>)
    ensures
        attributes_observed(s, attrs).caps == attributes_noted(s.caps, attrs),
        attributes_observed(s, attrs).defaults_applied,
{
    reveal(attributes_observed);
    let noted = with_caps(s, attributes_noted(s.caps, attrs));
    let a = ScreenView { defaults_applied: true, ..noted };
    let b = resize_preferred(a);
    let c = keyboard_enhanced(b);
    let d = mouse_preferred(c);
    assert(b.caps == a.caps && b.defaults_applied);
    assert(c.caps == b.caps && c.defaults_applied);
    assert(d.caps == c.caps && d.defaults_applied);
}

proof fn lemma_size_keeps(s: ScreenView, event: EventView)
    ensures
        size_observed(s, event).caps == s.caps,
        size_observed(s, event).defaults_applied == s.defaults_applied,
{
    reveal(size_observed);
    reveal(window_size_cached);
    reveal(position_observed);
}

/// The discovery-driven defaults are applied at most once. The first primary device
/// attributes apply them, nothing else does, nothing takes that back, and further
/// attributes stage nothing and change no mode.
pub proof fn law_defaults_apply_once(s: ScreenView, event: EventView)
    ensures
        event is PrimaryDeviceAttributes ==> observed(s, event).defaults_applied,
        !(event is PrimaryDeviceAttributes) ==> observed(s, event).defaults_applied
            == s.defaults_applied,
        s.defaults_applied ==> observed(s, event).defaults_applied,
        s.defaults_applied && event is PrimaryDeviceAttributes ==> observed(s, event).out == s.out
            && observed(s, event).state == s.state,
{
    lemma_reply_defaults(s, event);
    lemma_size_keeps(reply_observed(s, event), event);
    if let EventView::PrimaryDeviceAttributes(attrs) = event {
        lemma_attributes_grow(s, attrs);
        reveal(reply_observed);
        reveal(size_observed);
        reveal(attributes_observed);
    }
}

/// In the alternate screen the managed area begins at the top left of the terminal, and
/// mouse coordinates pass through unchanged.
pub proof fn law_alt_screen_has_no_offset(s: ScreenView, mouse: Mouse)
    requires
        s.state.alt_screen,
    ensures
        effective_origin(s).x == 0,
        effective_origin(s).y == 0,
        relative_mouse(mouse, effective_origin(s)) == mouse,
{
}

/// The origin of the managed area maps to its first cell; what lies above or left of it
/// maps to its edge; the rest keeps its distance.
pub proof fn law_origin_maps_to_first_cell(s: ScreenView, mouse: Mouse)
    ensures
        ({
            let origin = effective_origin(s);
            let there = relative_mouse(mouse, origin);
            &&& mouse.x <= origin.x ==> there.x == 0
            &&& mouse.y <= origin.y ==> there.y == 0
            &&& mouse.x >= origin.x ==> there.x + origin.x == mouse.x
            &&& mouse.y >= origin.y ==> there.y + origin.y == mouse.y
            &&& there.button == mouse.button
            &&& there.modifiers == mouse.modifiers
        }),
{
}

/// An origin that the terminal reports is kept such that the managed area stays on the
/// terminal, where it fits.
pub proof fn law_origin_keeps_area_on_terminal(s: ScreenView, pos: Position)
    requires
        s.size.height <= terminal_height(s),
    ensures
        clipped_origin(s, pos).y + s.size.height <= terminal_height(s),
        clipped_origin(s, pos).y <= pos.y,
        clipped_origin(s, pos).x == pos.x,
{
}

/// Only a reply that was asked for moves the origin.
pub proof fn law_unasked_position_is_not_the_origin(s: ScreenView, pos: Position)
    requires
        !s.origin_pending,
    ensures
        observed(s, EventView::CursorPosition(pos)) == s,
{
    reveal(reply_observed);
    reveal(size_observed);
    reveal(position_observed);
}

/// The origin is never asked for in the alternate screen, without origin tracking, or
/// without mouse.
pub proof fn law_origin_is_asked_for_inline(s: ScreenView)
    ensures
        origin_requested(s).origin_pending == (s.origin_pending || (!s.state.alt_screen
            && s.options.track_origin && s.state.mouse is Some)),
{
}

/// An event that is returned is the next to be read, and those that wait follow.
pub proof fn law_unread_event_is_read_next(s: ScreenView, event: EventView)
    ensures
        ({
            let returned = ScreenView { queue: seq![event] + s.queue, ..s };
            &&& returned.queue[0] == event
            &&& popped(returned) == s
        }),
{
    assert((seq![event] + s.queue).drop_first() =~= s.queue);
}

/// A drain waits no longer than what is left of its time, and not at all when nothing is
/// left.
pub proof fn law_drain_waits_within_its_time(s: ScreenView, stage: DrainStage, elapsed: u64)
    ensures
        match drain_step(s, stage, elapsed).wait {
            Some(wait) => 0 < wait && wait + elapsed <= s.options.query_drain_timeout,
            None => drain_step(s, stage, elapsed).stage is Done,
        },
{
    assert(echo_step(s, elapsed).wait is None ==> echo_step(s, elapsed).stage is Done);
    assert(settled_step(s, elapsed).wait is None ==> settled_step(s, elapsed).stage is Done);
}

/// Once the last reply has been observed, a drain is over unless in-band resize was
/// turned on.
pub proof fn law_drain_ends_with_the_last_reply(s: ScreenView, elapsed: u64)
    requires
        s.defaults_applied,
        !s.state.in_band_resize,
    ensures
        drain_step(s, DrainStage::Replies, elapsed).stage is Done,
        drain_step(s, DrainStage::Replies, elapsed).screen == s,
{
}

/// The request for the primary device attributes is the last of the queries.
pub proof fn law_attributes_are_asked_for_last(s: ScreenView)
    ensures
        exists|before: Seq<u8>|
            queried(s).out == #[trigger] (before + REQUEST_PRIMARY_DA.spec_bytes()),
{
    let q = queried(s).out;
    let n = REQUEST_PRIMARY_DA.spec_bytes().len();
    let before = q.take(q.len() - n);
    assert(q =~= before + REQUEST_PRIMARY_DA.spec_bytes());
}

/// A session without capability queries has nothing to drain.
pub proof fn law_no_queries_without_the_option(
    s: ScreenView,
    options: ScreenOptions,
    window: Option<Winsize>,
    profile: Profile,
)
    requires
        !options.query_capabilities,
    ensures
        started(s, options, window, profile).queries_sent == s.queries_sent,
        started(s, options, window, profile).caps == s.caps,
{
    let a = ScreenView { options, ..s };
    let b = autoresized(a, window);
    lemma_refit_keeps(a, window);
    let c = with_profile(b, profile);
    let d = tab_stops_reset(c);
    assert(d.queries_sent == c.queries_sent && d.caps == c.caps);
    let e = bracketed_paste_set(d, true);
    assert(e.queries_sent == d.queries_sent && e.caps == d.caps);
    assert(prepared(s, options, window, profile) == (if options.bracketed_paste {
        e
    } else {
        d
    }));
}

proof fn lemma_refit_keeps(s: ScreenView, window: Option<Winsize>)
    ensures
        autoresized(s, window).queries_sent == s.queries_sent,
        autoresized(s, window).caps == s.caps,
{
    reveal(window_size_cached);
}

/// A screen that takes the terminal back draws everything with its next frame.
pub proof fn law_resumed_screen_redraws(s: ScreenView, window: Option<Winsize>)
    ensures
        frame_changes(resumed(s, window).renderer, resumed(s, window).front),
        resumed(s, window).state == s.state,
{
    reveal(window_size_cached);
}

} // verus!
