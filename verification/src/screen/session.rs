//! The life of a session: construction, initialization, hand-over and return.
//!
//! A screen does no input or output. Where a session needs the terminal's size, its
//! input or the clock, the caller passes what it has found.

use crate::ansi::cursor::{
    reset_tab_stops_bytes, write_reset_tab_stops_every_8, SET_TAB_EVERY_8_COLUMNS,
};
use crate::ansi::kitty::REQUEST_KITTY_KEYBOARD;
use crate::ansi::mode::{request_bytes, Mode};
use crate::ansi::query::{
    write_xtgettcap, xtgettcap_bytes, QUERY_MODIFY_OTHER_KEYS, REQUEST_PRIMARY_DA,
    REQUEST_XTVERSION,
};
use crate::bytes::append_str;
use crate::color::Profile;
use crate::event::{Event, EventView};
use crate::layout::{Position, Size, Winsize};
use crate::screen::host::{apple_terminal, apple_version};
use crate::screen::modes::{bracketed_paste_set, if_held, reset_staged, restore_staged};
use crate::screen::observe::{
    attributes_noted, attributes_observed, keyboard_enhanced, mode_observed, mouse_preferred,
    observed, position_observed, reply_observed, resize_preferred, size_observed,
    true_color_observed, window_size_cached, with_caps,
};
use crate::screen::renderer::{
    new_renderer, Grid, Optimizations, Renderer, RendererView,
};
use crate::screen::state::{no_modes, Capabilities, State};
use crate::screen::{staged, with_size, Host, HostView, Screen, ScreenOptions, ScreenView};
use std::collections::VecDeque;
use vstd::prelude::*;
use vstd::string::*;

verus! {

/// A screen without a size, inline and with no mode held.
pub open spec fn bare_screen(
    profile: Profile,
    optimizations: Optimizations,
    host: HostView,
) -> ScreenView {
    ScreenView {
        front: Seq::empty(),
        renderer: new_renderer(profile, optimizations),
        out: Seq::empty(),
        size: Size { width: 0, height: 0 },
        state: no_modes(),
        caps: Capabilities::nothing(),
        options: ScreenOptions::spec_default(),
        host,
        defaults_applied: false,
        window_cells: None,
        window_pixels: None,
        terminal_name: None,
        queries_sent: false,
        origin: Position { x: 0, y: 0 },
        origin_pending: false,
        handle_resize: true,
        queue: Seq::empty(),
    }
}

/// A new screen of this size.
pub open spec fn new_screen(
    size: Size,
    profile: Profile,
    optimizations: Optimizations,
    host: HostView,
) -> ScreenView {
    let bare = bare_screen(profile, optimizations, host);
    if size.width != 0 || size.height != 0 {
        with_size(bare, size)
    } else {
        bare
    }
}

/// A screen refitted to the terminal: to all of it in the alternate screen, else to its
/// width. Nothing where the size is not known.
pub open spec fn autoresized(s: ScreenView, window: Option<Winsize>) -> ScreenView {
    match window {
        Some(ws) => with_size(
            window_size_cached(s, ws),
            Size {
                width: ws.col,
                height: if s.state.alt_screen {
                    ws.row
                } else {
                    s.size.height
                },
            },
        ),
        None => s,
    }
}

/// A screen with another color profile.
pub open spec fn with_profile(s: ScreenView, profile: Profile) -> ScreenView {
    ScreenView { renderer: RendererView { color_profile: profile, ..s.renderer }, ..s }
}

/// A screen with the tab stops of the terminal every eight columns, where the renderer
/// relies on them.
pub open spec fn tab_stops_reset(s: ScreenView) -> ScreenView {
    if !s.renderer.optimizations.tabs {
        s
    } else if s.host.supports_decst8c {
        staged(s, SET_TAB_EVERY_8_COLUMNS.spec_bytes())
    } else {
        staged(s, reset_tab_stops_bytes(s.size.width))
    }
}

/// The modes whose support is asked for.
pub open spec fn queried_modes() -> Seq<Mode> {
    seq![
        Mode::synchronized_output(),
        Mode::unicode_core(),
        Mode::in_band_resize(),
        Mode::visibility_reports(),
        Mode::mouse_normal(),
        Mode::mouse_button(),
        Mode::mouse_any(),
        Mode::mouse_sgr(),
        Mode::mouse_sgr_pixel(),
    ]
}

/// Output with a request for each of the modes.
pub open spec fn modes_requested(out: Seq<u8>, modes: Seq<Mode>) -> Seq<u8>
    decreases modes.len(),
{
    if modes.len() == 0 {
        out
    } else {
        modes_requested(out, modes.drop_last()) + request_bytes(modes.last())
    }
}

/// A screen that has asked for the features that not every terminal answers.
pub open spec fn features_queried(s: ScreenView) -> ScreenView {
    let below = s.renderer.color_profile.below_true_color();
    ScreenView {
        out: modes_requested(s.out, queried_modes()) + REQUEST_XTVERSION.spec_bytes()
            + QUERY_MODIFY_OTHER_KEYS.spec_bytes() + if_held(
            below,
            xtgettcap_bytes("RGB".spec_bytes()),
        ) + if_held(below, xtgettcap_bytes("Tc".spec_bytes())),
        ..s
    }
}

/// A screen that knows the features of Apple's `Terminal.app` without asking.
pub open spec fn apple_features_noted(s: ScreenView) -> ScreenView {
    let noted = with_caps(
        s,
        Capabilities {
            mouse_normal: true,
            mouse_button: true,
            mouse_any: true,
            mouse_sgr: true,
            ..s.caps
        },
    );
    if s.renderer.color_profile.below_true_color() && apple_has_true_color(s.host) {
        true_color_observed(noted)
    } else {
        noted
    }
}

/// Whether Apple's `Terminal.app` is of a version with direct color.
pub open spec fn apple_has_true_color(host: HostView) -> bool {
    match apple_version(host) {
        Some(version) => version >= 470,
        None => false,
    }
}

/// A screen that has sent its capability queries. The request for the primary device
/// attributes comes last, so its reply ends the replies.
pub open spec fn queried(s: ScreenView) -> ScreenView {
    let asked = staged(s, REQUEST_KITTY_KEYBOARD.spec_bytes());
    staged(
        if apple_terminal(s.host) {
            apple_features_noted(asked)
        } else {
            features_queried(asked)
        },
        REQUEST_PRIMARY_DA.spec_bytes(),
    )
}

/// A screen at the beginning of a session, before any query.
pub open spec fn prepared(
    s: ScreenView,
    options: ScreenOptions,
    window: Option<Winsize>,
    profile: Profile,
) -> ScreenView {
    let sized = tab_stops_reset(
        with_profile(autoresized(ScreenView { options, ..s }, window), profile),
    );
    if options.bracketed_paste {
        bracketed_paste_set(sized, true)
    } else {
        sized
    }
}

/// A screen at the beginning of a session.
pub open spec fn started(
    s: ScreenView,
    options: ScreenOptions,
    window: Option<Winsize>,
    profile: Profile,
) -> ScreenView {
    let ready = prepared(s, options, window, profile);
    if options.query_capabilities {
        ScreenView { queries_sent: true, ..queried(ready) }
    } else {
        ready
    }
}

/// A screen that has taken the terminal back.
pub open spec fn resumed(s: ScreenView, window: Option<Winsize>) -> ScreenView {
    let restored = restore_staged(autoresized(s, window));
    ScreenView { renderer: RendererView { clear: true, ..restored.renderer }, ..restored }
}

/// Where the consumption of outstanding replies stands.
#[derive(Debug, Clone, Copy, PartialEq, Eq, Structural)]
pub enum DrainStage {
    /// The replies to the capability queries are awaited.
    Replies,
    /// No more replies are awaited.
    Settled,
    /// The size report that answers the in-band resize mode is awaited.
    Echo,
    /// Nothing is awaited.
    Done,
}

/// The longest wait for a size report at a time, in milliseconds.
pub const ECHO_POLL: u64 = 50;

/// A screen without the first of its waiting events.
pub open spec fn popped(s: ScreenView) -> ScreenView {
    ScreenView { queue: s.queue.drop_first(), ..s }
}

/// A screen that has read and observed its waiting events until the defaults are
/// applied.
pub open spec fn replies_read(s: ScreenView) -> ScreenView
    decreases s.queue.len(),
{
    if s.queue.len() == 0 {
        s
    } else {
        let next = observed(popped(s), s.queue[0]);
        proof {
            lemma_observing_keeps_queue(popped(s), s.queue[0]);
        }
        if next.defaults_applied {
            next
        } else {
            replies_read(next)
        }
    }
}

/// A screen that has read and observed all its waiting events.
pub open spec fn all_read(s: ScreenView) -> ScreenView
    decreases s.queue.len(),
{
    if s.queue.len() == 0 {
        s
    } else {
        proof {
            lemma_observing_keeps_queue(popped(s), s.queue[0]);
        }
        all_read(observed(popped(s), s.queue[0]))
    }
}

/// Whether one of the events is a size report.
pub open spec fn has_resize(events: Seq<EventView>) -> bool {
    exists|i: int| 0 <= i < events.len() && #[trigger] events[i] is Resize
}

/// The next step of a drain: the screen, the stage, and how long to wait for input, if
/// at all.
pub struct DrainStep {
    pub screen: ScreenView,
    pub stage: DrainStage,
    pub wait: Option<u64>,
}

/// The step while a size report is awaited: read what is there, and wait for more
/// unless it has come or the time is up.
pub open spec fn echo_step(s: ScreenView, elapsed: u64) -> DrainStep {
    let budget = s.options.query_drain_timeout;
    if elapsed > budget {
        DrainStep { screen: s, stage: DrainStage::Done, wait: None }
    } else if has_resize(s.queue) || elapsed == budget {
        DrainStep { screen: all_read(s), stage: DrainStage::Done, wait: None }
    } else {
        DrainStep {
            screen: all_read(s),
            stage: DrainStage::Echo,
            wait: Some(
                if budget - elapsed < ECHO_POLL {
                    (budget - elapsed) as u64
                } else {
                    ECHO_POLL
                },
            ),
        }
    }
}

/// The step once no more replies are awaited: a size report is, where in-band resize is
/// on.
pub open spec fn settled_step(s: ScreenView, elapsed: u64) -> DrainStep {
    if s.state.in_band_resize {
        echo_step(s, elapsed)
    } else {
        DrainStep { screen: s, stage: DrainStage::Done, wait: None }
    }
}

/// The step at `stage`, `elapsed` milliseconds after the queries were sent.
pub open spec fn drain_step(s: ScreenView, stage: DrainStage, elapsed: u64) -> DrainStep {
    let budget = s.options.query_drain_timeout;
    match stage {
        DrainStage::Replies => if s.defaults_applied || elapsed >= budget {
            settled_step(s, elapsed)
        } else {
            DrainStep {
                screen: s,
                stage: DrainStage::Replies,
                wait: Some((budget - elapsed) as u64),
            }
        },
        DrainStage::Settled => settled_step(s, elapsed),
        DrainStage::Echo => echo_step(s, elapsed),
        DrainStage::Done => DrainStep { screen: s, stage: DrainStage::Done, wait: None },
    }
}

/// The screen after a wait: replies that came are read.
pub open spec fn waited(s: ScreenView, stage: DrainStage, ready: bool) -> ScreenView {
    if stage is Replies && ready {
        replies_read(s)
    } else {
        s
    }
}

/// The stage after a wait: where nothing came, nothing more is awaited at it.
pub open spec fn stage_after(stage: DrainStage, ready: bool) -> DrainStage {
    if ready {
        stage
    } else {
        match stage {
            DrainStage::Replies => DrainStage::Settled,
            _ => DrainStage::Done,
        }
    }
}

/// Observing an event leaves the events that wait.
pub proof fn lemma_observing_keeps_queue(s: ScreenView, event: EventView)
    ensures
        observed(s, event).queue == s.queue,
{
    lemma_reply_keeps_queue(s, event);
    lemma_size_keeps_queue(reply_observed(s, event), event);
}

proof fn lemma_reply_keeps_queue(s: ScreenView, event: EventView)
    ensures
        reply_observed(s, event).queue == s.queue,
{
    reveal(reply_observed);
    match event {
        EventView::ModeReport { mode, setting } => {
            reveal(mode_observed);
        },
        EventView::PrimaryDeviceAttributes(attrs) => {
            lemma_attributes_keep_queue(s, attrs);
        },
        _ => {},
    }
}

proof fn lemma_attributes_keep_queue(s: ScreenView, attrs: Seq<Option<u32>>)
    ensures
        attributes_observed(s, attrs).queue == s.queue,
{
    reveal(attributes_observed);
    let noted = with_caps(s, attributes_noted(s.caps, attrs));
    let a = ScreenView { defaults_applied: true, ..noted };
    let b = resize_preferred(a);
    let c = keyboard_enhanced(b);
    assert(b.queue == a.queue);
    assert(c.queue == b.queue);
    assert(mouse_preferred(c).queue == c.queue);
}

proof fn lemma_size_keeps_queue(s: ScreenView, event: EventView)
    ensures
        size_observed(s, event).queue == s.queue,
{
    reveal(size_observed);
    reveal(window_size_cached);
    reveal(position_observed);
}

/// Whether an event is a size report.
fn is_resize(event: &Event) -> (r: bool)
    ensures
        r == (event@ is Resize),
{
    matches!(event, Event::Resize(_))
}

/// Write a request for each of the queried modes.
fn write_mode_requests(out: &mut Vec<u8>)
    ensures
        final(out)@ == modes_requested(old(out)@, queried_modes()),
{
    let modes: [Mode; 9] = [
        Mode::synchronized_output(),
        Mode::unicode_core(),
        Mode::in_band_resize(),
        Mode::visibility_reports(),
        Mode::mouse_normal(),
        Mode::mouse_button(),
        Mode::mouse_any(),
        Mode::mouse_sgr(),
        Mode::mouse_sgr_pixel(),
    ];
    let ghost start = out@;
    assert(modes@ =~= queried_modes());
    let mut i: usize = 0;
    while i < 9
        invariant
            i <= 9,
            modes@ == queried_modes(),
            out@ == modes_requested(start, queried_modes().subrange(0, i as int)),
        decreases 9 - i,
    {
        modes[i].request(out);
        i += 1;
        let ghost done = queried_modes().subrange(0, i as int);
        assert(done.drop_last() =~= queried_modes().subrange(0, i - 1));
        assert(done.last() == queried_modes()[i - 1]);
    }
    assert(queried_modes().subrange(0, 9) =~= queried_modes());
}

impl Screen {
    /// A screen of this size, with the color profile, the renderer optimizations and
    /// the facts that the environment shows. The terminal is left as it is.
    pub fn new(size: Size, profile: Profile, optimizations: Optimizations, host: Host) -> (r: Screen)
        ensures
            r.well_formed(),
            r@ == new_screen(size, profile, optimizations, host@),
    {
        let mut screen = Screen::bare(profile, optimizations, host);
        if size.width != 0 || size.height != 0 {
            screen.resize(size);
        }
        screen
    }

    fn bare(profile: Profile, optimizations: Optimizations, host: Host) -> (r: Screen)
        ensures
            r.well_formed(),
            r@ == bare_screen(profile, optimizations, host@),
    {
        let r = Screen {
            front: Grid::empty(),
            renderer: Renderer::new(profile, optimizations),
            out: Vec::new(),
            width: 0,
            height: 0,
            state: State::default(),
            caps: Capabilities::default(),
            options: ScreenOptions::default(),
            host,
            defaults_applied: false,
            window_cells: None,
            window_pixels: None,
            terminal_name: None,
            queries_sent: false,
            origin: Position::origin(),
            origin_pending: false,
            handle_resize: true,
            queue: VecDeque::new(),
        };
        assert(r@.queue =~= Seq::<EventView>::empty());
        r
    }

    /// Begin a session with the default options. See [`init_with`](Self::init_with).
    pub fn init(&mut self, window: Option<Winsize>, profile: Profile)
        requires
            old(self).well_formed(),
        ensures
            final(self).well_formed(),
            final(self)@ == started(
                old(self)@,
                ScreenOptions::spec_default(),
                window,
                profile,
            ),
    {
        self.init_with(ScreenOptions::default(), window, profile);
    }

    /// Begin a session: refit to the window, apply the color profile and the always-on
    /// defaults, and stage the capability queries. The discovery-driven defaults follow
    /// when the terminal has answered.
    pub fn init_with(&mut self, options: ScreenOptions, window: Option<Winsize>, profile: Profile)
        requires
            old(self).well_formed(),
        ensures
            final(self).well_formed(),
            final(self)@ == started(old(self)@, options, window, profile),
    {
        self.prepare(options, window, profile);
        if options.query_capabilities {
            self.send_init_queries();
            self.mark_queries_sent();
        }
    }

    fn prepare(&mut self, options: ScreenOptions, window: Option<Winsize>, profile: Profile)
        requires
            old(self).well_formed(),
        ensures
            final(self).well_formed(),
            final(self)@ == prepared(old(self)@, options, window, profile),
    {
        self.set_options(options);
        self.autoresize(window);
        self.set_color_profile(profile);
        self.reset_tab_stops();
        if options.bracketed_paste {
            self.enable_bracketed_paste();
        }
    }

    fn set_options(&mut self, options: ScreenOptions)
        requires
            old(self).well_formed(),
        ensures
            final(self).well_formed(),
            final(self)@ == (ScreenView { options, ..old(self)@ }),
    {
        self.options = options;
    }

    fn mark_queries_sent(&mut self)
        requires
            old(self).well_formed(),
        ensures
            final(self).well_formed(),
            final(self)@ == (ScreenView { queries_sent: true, ..old(self)@ }),
    {
        self.queries_sent = true;
    }

    /// Refit the managed area to the terminal: to all of it in the alternate screen, to
    /// its width inline. The size stays where the window's is not known.
    pub fn autoresize(&mut self, window: Option<Winsize>)
        requires
            old(self).well_formed(),
        ensures
            final(self).well_formed(),
            final(self)@ == autoresized(old(self)@, window),
    {
        if let Some(ws) = window {
            let height = if self.state.alt_screen {
                ws.row
            } else {
                self.height
            };
            self.cache_window_size(ws);
            self.resize(Size::new(ws.col, height));
        }
    }

    /// Bring the terminal's tab stops in line with what the renderer relies on.
    fn reset_tab_stops(&mut self)
        requires
            old(self).well_formed(),
        ensures
            final(self).well_formed(),
            final(self)@ == tab_stops_reset(old(self)@),
    {
        if !self.optimizations().tabs {
            return;
        }
        if self.host.supports_decst8c {
            append_str(&mut self.out, SET_TAB_EVERY_8_COLUMNS);
        } else {
            write_reset_tab_stops_every_8(&mut self.out, self.width);
        }
    }

    /// Stage the capability queries.
    fn send_init_queries(&mut self)
        requires
            old(self).well_formed(),
        ensures
            final(self).well_formed(),
            final(self)@ == queried(old(self)@),
    {
        self.request_kitty_keyboard();
        if self.host.is_apple_terminal() {
            self.note_apple_features();
        } else {
            self.query_features();
        }
        self.stage(REQUEST_PRIMARY_DA);
    }

    fn stage(&mut self, text: &str)
        requires
            old(self).well_formed(),
        ensures
            final(self).well_formed(),
            final(self)@ == staged(old(self)@, text.spec_bytes()),
    {
        append_str(&mut self.out, text);
    }

    fn query_features(&mut self)
        requires
            old(self).well_formed(),
        ensures
            final(self).well_formed(),
            final(self)@ == features_queried(old(self)@),
    {
        write_mode_requests(&mut self.out);
        append_str(&mut self.out, REQUEST_XTVERSION);
        append_str(&mut self.out, QUERY_MODIFY_OTHER_KEYS);
        if self.color_profile().below_true_color() {
            write_xtgettcap(&mut self.out, "RGB");
            write_xtgettcap(&mut self.out, "Tc");
        } else {
            assert(self.out@ =~= self.out@ + Seq::<u8>::empty() + Seq::<u8>::empty());
        }
    }

    fn note_apple_features(&mut self)
        requires
            old(self).well_formed(),
        ensures
            final(self).well_formed(),
            final(self)@ == apple_features_noted(old(self)@),
    {
        let caps = self.caps;
        self.note(
            Capabilities {
                mouse_normal: true,
                mouse_button: true,
                mouse_any: true,
                mouse_sgr: true,
                ..caps
            },
        );
        if self.color_profile().below_true_color() {
            if let Some(version) = self.host.apple_terminal_version() {
                if version >= 470 {
                    self.observe_true_color();
                }
            }
        }
    }

    /// Stage what hands the terminal back, and keep the screen to go on with
    /// [`resume`](Self::resume). The modes stay tracked.
    pub fn pause(&mut self)
        requires
            old(self).well_formed(),
        ensures
            final(self).well_formed(),
            final(self)@ == reset_staged(old(self)@),
    {
        self.reset();
    }

    /// End the session: the bytes that are left to be written, with those that hand the
    /// terminal back.
    pub fn finish(self) -> (r: Vec<u8>)
        requires
            self.well_formed(),
        ensures
            r@ == reset_staged(self@).out,
    {
        let mut screen = self;
        screen.reset();
        screen.take_output()
    }

    /// Take the terminal back after a [`pause`](Self::pause): refit, apply the tracked
    /// modes again, and redraw everything with the next frame.
    pub fn resume(&mut self, window: Option<Winsize>)
        requires
            old(self).well_formed(),
        ensures
            final(self).well_formed(),
            final(self)@ == resumed(old(self)@, window),
    {
        self.autoresize(window);
        self.restore();
        self.invalidate();
    }

    /// Whether replies to the capability queries have to be consumed before the terminal
    /// is handed back, so that they do not end up with the shell. It is so once, where
    /// queries were sent and the last reply has not been observed.
    pub fn begin_drain(&mut self) -> (r: bool)
        requires
            old(self).well_formed(),
        ensures
            final(self).well_formed(),
            r == (old(self)@.queries_sent && !old(self)@.defaults_applied),
            final(self)@ == (ScreenView {
                queries_sent: old(self)@.queries_sent && old(self)@.defaults_applied,
                ..old(self)@
            }),
    {
        if self.defaults_applied || !self.queries_sent {
            return false;
        }
        self.queries_sent = false;
        true
    }

    /// The next step of a drain, `elapsed` milliseconds after the queries were sent: the
    /// stage, and how long to wait for input, in milliseconds, where there is something
    /// to wait for. What comes is to be put into the queue; then
    /// [`finish_wait`](Self::finish_wait) follows.
    pub fn next_wait(&mut self, stage: DrainStage, elapsed: u64) -> (r: (DrainStage, Option<u64>))
        requires
            old(self).well_formed(),
        ensures
            final(self).well_formed(),
            drain_step(old(self)@, stage, elapsed) == (DrainStep {
                screen: final(self)@,
                stage: r.0,
                wait: r.1,
            }),
    {
        let budget = self.options.query_drain_timeout;
        match stage {
            DrainStage::Replies => if self.defaults_applied || elapsed >= budget {
                self.settle(elapsed)
            } else {
                (DrainStage::Replies, Some(budget - elapsed))
            },
            DrainStage::Settled => self.settle(elapsed),
            DrainStage::Echo => self.await_echo(elapsed),
            DrainStage::Done => (DrainStage::Done, None),
        }
    }

    fn settle(&mut self, elapsed: u64) -> (r: (DrainStage, Option<u64>))
        requires
            old(self).well_formed(),
        ensures
            final(self).well_formed(),
            settled_step(old(self)@, elapsed) == (DrainStep {
                screen: final(self)@,
                stage: r.0,
                wait: r.1,
            }),
    {
        if self.state.in_band_resize {
            self.await_echo(elapsed)
        } else {
            (DrainStage::Done, None)
        }
    }

    fn await_echo(&mut self, elapsed: u64) -> (r: (DrainStage, Option<u64>))
        requires
            old(self).well_formed(),
        ensures
            final(self).well_formed(),
            echo_step(old(self)@, elapsed) == (DrainStep {
                screen: final(self)@,
                stage: r.0,
                wait: r.1,
            }),
    {
        let budget = self.options.query_drain_timeout;
        if elapsed > budget {
            return (DrainStage::Done, None);
        }
        let saw_resize = self.read_all();
        if saw_resize || elapsed == budget {
            return (DrainStage::Done, None);
        }
        let left = budget - elapsed;
        let wait = if left < ECHO_POLL {
            left
        } else {
            ECHO_POLL
        };
        (DrainStage::Echo, Some(wait))
    }

    /// Read and observe all events that wait, and return whether a size report was
    /// among them.
    fn read_all(&mut self) -> (r: bool)
        requires
            old(self).well_formed(),
        ensures
            final(self).well_formed(),
            final(self)@ == all_read(old(self)@),
            r == has_resize(old(self)@.queue),
    {
        let ghost start = self@;
        let ghost mut read: int = 0;
        let mut saw_resize = false;
        loop
            invariant
                self.well_formed(),
                all_read(self@) == all_read(start),
                0 <= read <= start.queue.len(),
                self@.queue == start.queue.subrange(read, start.queue.len() as int),
                saw_resize == has_resize(start.queue.subrange(0, read)),
            ensures
                self.well_formed(),
                self@ == all_read(start),
                saw_resize == has_resize(start.queue),
            decreases start.queue.len() - read,
        {
            let ghost before = self@;
            match self.try_read_event() {
                Some(event) => {
                    proof {
                        lemma_observing_keeps_queue(self@, event@);
                        assert(start.queue.subrange(0, read + 1) =~= start.queue.subrange(
                            0,
                            read,
                        ).push(start.queue[read]));
                        lemma_has_resize_push(start.queue.subrange(0, read), start.queue[read]);
                        assert(start.queue.subrange(read, start.queue.len() as int).drop_first()
                            =~= start.queue.subrange(read + 1, start.queue.len() as int));
                        read = read + 1;
                    }
                    saw_resize = saw_resize || is_resize(&event);
                    self.observe_event(&event);
                },
                None => {
                    assert(start.queue.subrange(0, read) =~= start.queue);
                    break;
                },
            }
        }
        saw_resize
    }

    /// What follows a wait at `stage`, where `ready` says whether input came: the stage
    /// at which to go on with [`next_wait`](Self::next_wait).
    pub fn finish_wait(&mut self, stage: DrainStage, ready: bool) -> (r: DrainStage)
        requires
            old(self).well_formed(),
        ensures
            final(self).well_formed(),
            final(self)@ == waited(old(self)@, stage, ready),
            r == stage_after(stage, ready),
    {
        if ready {
            if let DrainStage::Replies = stage {
                self.read_replies();
            }
            return stage;
        }
        match stage {
            DrainStage::Replies => DrainStage::Settled,
            _ => DrainStage::Done,
        }
    }

    /// Read and observe the events that wait until the defaults are applied.
    fn read_replies(&mut self)
        requires
            old(self).well_formed(),
        ensures
            final(self).well_formed(),
            final(self)@ == replies_read(old(self)@),
    {
        let ghost start = self@;
        loop
            invariant_except_break
                self.well_formed(),
                replies_read(self@) == replies_read(start),
            ensures
                self.well_formed(),
                self@ == replies_read(start),
            decreases self@.queue.len(),
        {
            match self.try_read_event() {
                Some(event) => {
                    proof {
                        lemma_observing_keeps_queue(self@, event@);
                    }
                    self.observe_event(&event);
                    if self.defaults_applied {
                        break;
                    }
                },
                None => {
                    break;
                },
            }
        }
    }
}

/// A size report among events and one more is among them or is the one more.
proof fn lemma_has_resize_push(events: Seq<EventView>, event: EventView)
    ensures
        has_resize(events.push(event)) == (has_resize(events) || event is Resize),
{
    let all = events.push(event);
    if has_resize(events) {
        let i = choose|i: int| 0 <= i < events.len() && #[trigger] events[i] is Resize;
        assert(all[i] is Resize);
    }
    if event is Resize {
        assert(all[events.len() as int] is Resize);
    }
    if has_resize(all) {
        let i = choose|i: int| 0 <= i < all.len() && #[trigger] all[i] is Resize;
        if i < events.len() {
            assert(events[i] is Resize);
        }
    }
}

} // verus!
