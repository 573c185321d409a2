//! What a [`Screen`](crate::screen::Screen) learns of its terminal, and what it asks for.

use crate::ansi::mode::{request_bytes, Mode, ModeSetting};
use crate::bytes::occurs_in;
use crate::color::Profile;
use crate::event::{EventView, ModifyOtherKeysMode};
use crate::layout::{Position, Size, Winsize};
use crate::screen::observe::{
    attributes_observed, mode_observed, names_true_color, observed, reply_observed, size_observed,
    window_size_cached,
};
use crate::screen::renderer::{cell_at, rectangular, with_cell, Cell};
use crate::screen::session::{autoresized, features_queried, modes_requested, queried_modes};
use crate::screen::state::Capabilities;
use crate::screen::{with_size, ScreenView};
use vstd::prelude::*;
use vstd::string::*;

verus! {

/// Whether a terminal that reports this setting of a mode lets it be set.
pub open spec fn usable(setting: ModeSetting) -> bool {
    setting is CurrentlySet || setting is Reset || setting is PermanentlySet
}

/// What a screen knows and does after a report on the mode of this number.
pub open spec fn after_report(s: ScreenView, number: u16, setting: ModeSetting) -> ScreenView {
    observed(s, EventView::ModeReport { mode: Mode::Dec(number), setting })
}

/// A mode that the terminal lets be set is learned as the capability it stands for, and as
/// nothing else. Synchronized output and grapheme clusters are put to use.
pub proof fn law_mode_reports_are_learned(s: ScreenView, setting: ModeSetting)
    requires
        usable(setting),
    ensures
        after_report(s, 1000, setting).caps == (Capabilities { mouse_normal: true, ..s.caps }),
        after_report(s, 1002, setting).caps == (Capabilities { mouse_button: true, ..s.caps }),
        after_report(s, 1003, setting).caps == (Capabilities { mouse_any: true, ..s.caps }),
        after_report(s, 1006, setting).caps == (Capabilities { mouse_sgr: true, ..s.caps }),
        after_report(s, 1016, setting).caps == (Capabilities { mouse_sgr_pixel: true, ..s.caps }),
        after_report(s, 2026, setting).caps == (Capabilities {
            synchronized_output: true,
            ..s.caps
        }),
        after_report(s, 2026, setting).state.sync_updates,
        after_report(s, 2027, setting).caps == (Capabilities { grapheme_clusters: true, ..s.caps }),
        after_report(s, 2027, setting).state.grapheme_clusters,
        after_report(s, 2033, setting).caps == (Capabilities {
            visibility_reports: true,
            ..s.caps
        }),
        after_report(s, 2048, setting).caps == (Capabilities { in_band_resize: true, ..s.caps }),
{
    reveal(reply_observed);
    reveal(size_observed);
    reveal(mode_observed);
}

/// A mode that the terminal does not know, or never sets, changes nothing, and neither does a
/// mode that stands for no capability.
pub proof fn law_unusable_modes_change_nothing(
    s: ScreenView,
    mode: Mode,
    setting: ModeSetting,
    number: u16,
)
    requires
        !usable(setting),
        number != 1000 && number != 1002 && number != 1003 && number != 1006 && number != 1016
            && number != 2026 && number != 2027 && number != 2033 && number != 2048,
    ensures
        observed(s, EventView::ModeReport { mode, setting }) == s,
        forall|any: ModeSetting|
            #[trigger] after_report(s, number, any).caps == s.caps && after_report(
                s,
                number,
                any,
            ).out == s.out,
{
    reveal(reply_observed);
    reveal(size_observed);
    reveal(mode_observed);
}

/// The keyboard protocols that are answered are learned, and so is the terminal's name.
pub proof fn law_replies_are_learned(
    s: ScreenView,
    kitty: EventView,
    other: EventView,
    name: Seq<char>,
)
    requires
        kitty is KittyKeyboardEnhancements,
        other is ModifyOtherKeys,
    ensures
        observed(s, kitty).caps == (Capabilities { kitty_keyboard: true, ..s.caps }),
        observed(s, other).caps == (Capabilities { modify_other_keys: true, ..s.caps }),
        observed(s, EventView::TerminalName(name)).terminal_name == Some(name),
        observed(s, EventView::TerminalName(name)).caps == s.caps,
{
    reveal(reply_observed);
    reveal(size_observed);
}

/// Direct color is learned from a capability that the terminal recognizes and that names it.
pub proof fn law_direct_color_is_learned(s: ScreenView, payload: Seq<char>)
    ensures
        names_true_color(payload) ==> observed(
            s,
            EventView::Termcap { recognized: true, payload },
        ).caps == (Capabilities { true_color: true, ..s.caps }),
        names_true_color(payload) ==> observed(
            s,
            EventView::Termcap { recognized: true, payload },
        ).renderer.color_profile == Profile::TrueColor,
        observed(s, EventView::Termcap { recognized: false, payload }).caps == s.caps,
        observed(s, EventView::Termcap { recognized: false, payload }).renderer == s.renderer,
{
    reveal(reply_observed);
    reveal(size_observed);
}

/// Sixel graphics and the clipboard are learned from the attributes 4 and 52.
pub proof fn law_attributes_are_learned(s: ScreenView, attrs: Seq<Option<u32>>)
    requires
        s.defaults_applied,
    ensures
        ({
            let u = observed(s, EventView::PrimaryDeviceAttributes(attrs));
            &&& u.caps.sixel == (s.caps.sixel || attrs.contains(Some(4u32)))
            &&& u.caps.clipboard == (s.caps.clipboard || attrs.contains(Some(52u32)))
        }),
{
    reveal(reply_observed);
    reveal(size_observed);
    reveal(attributes_observed);
}

/// The size of the terminal is the one it reports last, with width and height told apart.
pub proof fn law_sizes_are_learned(s: ScreenView, width: u16, height: u16, ws: Winsize)
    ensures
        observed(s, EventView::WindowCellSize { width, height }).window_cells == Some(
            Size { width, height },
        ),
        observed(s, EventView::WindowPixelSize { width, height }).window_pixels == Some(
            Size { width, height },
        ),
        observed(s, EventView::Resize(ws)).window_cells == Some(
            Size { width: ws.col, height: ws.row },
        ),
        ws.xpixel > 0 && ws.ypixel > 0 ==> observed(s, EventView::Resize(ws)).window_pixels == Some(
            Size { width: ws.xpixel, height: ws.ypixel },
        ),
        ws.xpixel == 0 || ws.ypixel == 0 ==> observed(s, EventView::Resize(ws)).window_pixels
            == s.window_pixels,
{
    reveal(reply_observed);
    reveal(size_observed);
    reveal(window_size_cached);
}

/// The first device attributes apply the options, as far as the terminal has what they ask for:
/// in-band resize where it is preferred, the Kitty keyboard protocol before modifyOtherKeys, and
/// the mouse tracking that is wanted.
pub proof fn law_defaults_follow_options(s: ScreenView, attrs: Seq<Option<u32>>)
    requires
        !s.defaults_applied,
    ensures
        ({
            let u = observed(s, EventView::PrimaryDeviceAttributes(attrs));
            let wanted = s.options.keyboard_enhancements;
            &&& u.defaults_applied
            &&& u.state.in_band_resize == (s.state.in_band_resize || (
            s.options.prefer_in_band_resize && s.caps.in_band_resize))
            &&& u.handle_resize == (s.handle_resize && !(s.options.prefer_in_band_resize
                && s.caps.in_band_resize))
            &&& u.state.kitty_keyboard == (if !wanted.is_empty() && s.caps.kitty_keyboard {
                wanted
            } else {
                s.state.kitty_keyboard
            })
            &&& u.state.modify_other_keys == (if !wanted.is_empty() && !s.caps.kitty_keyboard
                && s.caps.modify_other_keys {
                ModifyOtherKeysMode::Mode2
            } else {
                s.state.modify_other_keys
            })
            &&& u.state.mouse == (if s.options.mouse is Some {
                s.options.mouse
            } else {
                s.state.mouse
            })
        }),
{
    reveal(reply_observed);
    reveal(size_observed);
    reveal(attributes_observed);
}

/// A cell that is written is read back, and no other one changes. Outside the area nothing is
/// written.
pub proof fn law_written_cells_read_back(
    rows: Seq<Seq<Cell>>,
    width: u16,
    pos: Position,
    cell: Cell,
)
    requires
        rectangular(rows, width),
    ensures
        pos.x < width && pos.y < rows.len() ==> cell_at(
            with_cell(rows, pos, cell),
            pos.x as int,
            pos.y as int,
        ) == cell,
        forall|x: int, y: int|
            x != pos.x || y != pos.y ==> #[trigger] cell_at(with_cell(rows, pos, cell), x, y)
                == cell_at(rows, x, y),
        pos.x >= width || pos.y >= rows.len() ==> with_cell(rows, pos, cell) == rows,
{
}

/// An area that is resized keeps the cells that are in both sizes, and is blank elsewhere.
pub proof fn law_resized_area_keeps_cells(s: ScreenView, size: Size)
    ensures
        ({
            let u = with_size(s, size);
            &&& u.size == size
            &&& u.front.len() == size.height
            &&& rectangular(u.front, size.width)
            &&& forall|x: int, y: int|
                0 <= x < size.width && 0 <= y < size.height && y < s.front.len() && x
                    < s.front[y].len() ==> #[trigger] u.front[y][x] == s.front[y][x]
            &&& forall|x: int, y: int|
                0 <= x < size.width && 0 <= y < size.height && !(y < s.front.len() && x
                    < s.front[y].len()) ==> (#[trigger] u.front[y][x]).glyph == ' '
            &&& u.renderer.clear
        }),
{
}

/// An area follows the terminal: in all of its size in the alternate screen, else in its width.
pub proof fn law_area_follows_terminal(s: ScreenView, ws: Winsize)
    ensures
        ({
            let u = autoresized(s, Some(ws));
            &&& u.size.width == ws.col
            &&& s.state.alt_screen ==> u.size.height == ws.row
            &&& !s.state.alt_screen ==> u.size.height == s.size.height
            &&& u.window_cells == Some(Size { width: ws.col, height: ws.row })
        }),
        autoresized(s, None) == s,
{
    reveal(window_size_cached);
}

/// Requests for modes hold one for each of them.
proof fn lemma_requests_hold(out: Seq<u8>, modes: Seq<Mode>, i: int) -> (at: int)
    requires
        0 <= i < modes.len(),
    ensures
        0 <= at,
        at + request_bytes(modes[i]).len() <= modes_requested(out, modes).len(),
        modes_requested(out, modes).subrange(at, at + request_bytes(modes[i]).len())
            == request_bytes(modes[i]),
    decreases modes.len(),
{
    let all = modes_requested(out, modes);
    let front = modes_requested(out, modes.drop_last());
    let needle = request_bytes(modes[i]);
    if i == modes.len() - 1 {
        assert(all.subrange(front.len() as int, (front.len() + needle.len()) as int) =~= needle);
        front.len() as int
    } else {
        let at = lemma_requests_hold(out, modes.drop_last(), i);
        assert(all.subrange(at, at + needle.len()) =~= front.subrange(at, at + needle.len()));
        at
    }
}

/// What occurs in the front of some bytes occurs in all of them.
proof fn lemma_occurs_in_front(front: Seq<u8>, tail: Seq<u8>, needle: Seq<u8>, at: int)
    requires
        0 <= at,
        at + needle.len() <= front.len(),
        front.subrange(at, at + needle.len()) == needle,
    ensures
        occurs_in(front + tail, needle),
{
    assert((front + tail).subrange(at, at + needle.len()) =~= needle);
}

/// Whether `s` asks the terminal for the mode of this number.
pub open spec fn asks_for(s: ScreenView, number: u16) -> bool {
    occurs_in(s.out, request_bytes(Mode::Dec(number)))
}

/// Every mode that stands for a capability is asked for.
pub proof fn law_capabilities_are_asked_for(s: ScreenView)
    ensures
        ({
            let u = features_queried(s);
            &&& asks_for(u, 1000)
            &&& asks_for(u, 1002)
            &&& asks_for(u, 1003)
            &&& asks_for(u, 1006)
            &&& asks_for(u, 1016)
            &&& asks_for(u, 2026)
            &&& asks_for(u, 2027)
            &&& asks_for(u, 2033)
            &&& asks_for(u, 2048)
        }),
{
    lemma_asked(s, 0);
    lemma_asked(s, 1);
    lemma_asked(s, 2);
    lemma_asked(s, 3);
    lemma_asked(s, 4);
    lemma_asked(s, 5);
    lemma_asked(s, 6);
    lemma_asked(s, 7);
    lemma_asked(s, 8);
}

/// One of the modes.
proof fn lemma_asked(s: ScreenView, i: int)
    requires
        0 <= i < queried_modes().len(),
    ensures
        occurs_in(features_queried(s).out, request_bytes(queried_modes()[i])),
{
    let front = modes_requested(s.out, queried_modes());
    let all = features_queried(s).out;
    let tail = all.subrange(front.len() as int, all.len() as int);
    let at = lemma_requests_hold(s.out, queried_modes(), i);
    assert(all =~= front + tail);
    lemma_occurs_in_front(front, tail, request_bytes(queried_modes()[i]), at);
}

} // verus!
