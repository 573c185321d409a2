//! Mouse events and the mouse report encodings.
//!
//! Every encoding carries one button code and two coordinates. The low bits of
//! the code name the button; 4, 8 and 16 are Shift, Alt and Control; 32 marks
//! motion; 64 selects the wheel and 128 the extra buttons.

use crate::event::key::KeyModifiers;
use crate::event::{Event, EventView};
use vstd::prelude::*;

verus! {

/// A mouse button or wheel direction.
#[derive(Debug, Clone, Copy, PartialEq, Eq, Hash, Structural)]
pub enum MouseButton {
    /// No button held.
    NoButton,
    /// Left button.
    Left,
    /// Middle button.
    Middle,
    /// Right button.
    Right,
    /// Wheel up.
    WheelUp,
    /// Wheel down.
    WheelDown,
    /// Wheel left.
    WheelLeft,
    /// Wheel right.
    WheelRight,
    /// Backward button.
    Backward,
    /// Forward button.
    Forward,
    /// Tenth button.
    Button10,
    /// Eleventh button.
    Button11,
}

/// Where the pointer is, in zero-based coordinates, and what is held.
#[derive(Debug, Clone, Copy, PartialEq, Eq, Hash, Structural)]
pub struct Mouse {
    /// Column, or horizontal pixel offset.
    pub x: u16,
    /// Row, or vertical pixel offset.
    pub y: u16,
    /// The button that the event is about.
    pub button: MouseButton,
    /// The modifiers held.
    pub modifiers: KeyModifiers,
}

impl Mouse {
    /// The mouse at `(x, y)`.
    #[verifier::allow_in_spec]
    pub fn new(x: u16, y: u16, button: MouseButton, modifiers: KeyModifiers) -> Mouse
        returns
            (Mouse { x, y, button, modifiers }),
    {
        Mouse { x, y, button, modifiers }
    }
}

/// Bit `k` of a button code.
pub open spec fn bit(code: u32, k: u32) -> bool {
    (code / k) % 2 == 1
}

/// The button that a button code names.
#[verifier::allow_in_spec]
pub fn button_of(code: u32) -> MouseButton
    returns
        ({
            let low = code % 4;
            if bit(code, 128) {
                if low == 0 {
                    MouseButton::Backward
                } else if low == 1 {
                    MouseButton::Forward
                } else if low == 2 {
                    MouseButton::Button10
                } else {
                    MouseButton::Button11
                }
            } else if bit(code, 64) {
                if low == 0 {
                    MouseButton::WheelUp
                } else if low == 1 {
                    MouseButton::WheelDown
                } else if low == 2 {
                    MouseButton::WheelLeft
                } else {
                    MouseButton::WheelRight
                }
            } else if low == 0 {
                MouseButton::Left
            } else if low == 1 {
                MouseButton::Middle
            } else if low == 2 {
                MouseButton::Right
            } else {
                MouseButton::NoButton
            }
        }),
{
    let low: u32 = code % 4;
    if (code / 128) % 2 == 1 {
        match low {
            0 => MouseButton::Backward,
            1 => MouseButton::Forward,
            2 => MouseButton::Button10,
            _ => MouseButton::Button11,
        }
    } else if (code / 64) % 2 == 1 {
        match low {
            0 => MouseButton::WheelUp,
            1 => MouseButton::WheelDown,
            2 => MouseButton::WheelLeft,
            _ => MouseButton::WheelRight,
        }
    } else {
        match low {
            0 => MouseButton::Left,
            1 => MouseButton::Middle,
            2 => MouseButton::Right,
            _ => MouseButton::NoButton,
        }
    }
}

/// The modifiers that a button code carries.
#[verifier::allow_in_spec]
pub fn mouse_modifiers(code: u32) -> KeyModifiers
    returns
        (KeyModifiers {
            shift: bit(code, 4),
            alt: bit(code, 8),
            ctrl: bit(code, 16),
            ..KeyModifiers::empty()
        }),
{
    KeyModifiers {
        shift: (code / 4) % 2 == 1,
        alt: (code / 8) % 2 == 1,
        ctrl: (code / 16) % 2 == 1,
        ..KeyModifiers::empty()
    }
}

/// The event of a mouse report. `release` is what the encoding itself says of a
/// release; without it, a report of no button and no motion is one.
pub open spec fn mouse_event(code: u32, x: u16, y: u16, release: bool) -> EventView {
    let m = Mouse { x, y, button: button_of(code), modifiers: mouse_modifiers(code) };
    if bit(code, 64) && !bit(code, 128) {
        EventView::MouseWheel(m)
    } else if bit(code, 32) {
        EventView::MouseMove(m)
    } else if release || m.button is NoButton {
        EventView::MouseRelease(m)
    } else {
        EventView::MouseClick(m)
    }
}

/// Compute [`mouse_event`].
pub fn make_mouse_event(code: u32, x: u16, y: u16, release: bool) -> (r: Event)
    ensures
        r@ == mouse_event(code, x, y, release),
{
    let m = Mouse { x, y, button: button_of(code), modifiers: mouse_modifiers(code) };
    if (code / 64) % 2 == 1 && (code / 128) % 2 != 1 {
        Event::MouseWheel(m)
    } else if (code / 32) % 2 == 1 {
        Event::MouseMove(m)
    } else if release || matches!(m.button, MouseButton::NoButton) {
        Event::MouseRelease(m)
    } else {
        Event::MouseClick(m)
    }
}

/// A one-based report coordinate as a zero-based one, clamped to `u16`.
pub open spec fn zero_based(v: u32) -> u16 {
    if v == 0 {
        0
    } else if v - 1 > u16::MAX {
        u16::MAX
    } else {
        (v - 1) as u16
    }
}

/// Compute [`zero_based`].
pub fn to_zero_based(v: u32) -> (r: u16)
    ensures
        r == zero_based(v),
{
    if v == 0 {
        0
    } else if v - 1 > 0xffff {
        0xffff
    } else {
        (v - 1) as u16
    }
}

/// A coordinate byte of the X10 encoding, which is offset by 32 and one-based.
pub open spec fn x10_coordinate(v: u32) -> u16 {
    zero_based(
        if v < 32 {
            0
        } else {
            (v - 32) as u32
        },
    )
}

/// The event of an X10 report: three values, each offset by 32. A button value
/// below the offset is no report.
pub open spec fn x10_event(cb: u32, cx: u32, cy: u32) -> Option<EventView> {
    if cb < 32 {
        None
    } else {
        Some(mouse_event((cb - 32) as u32, x10_coordinate(cx), x10_coordinate(cy), false))
    }
}

/// Compute [`x10_event`].
pub fn decode_x10_mouse(cb: u32, cx: u32, cy: u32) -> (r: Option<Event>)
    ensures
        r is Some == x10_event(cb, cx, cy) is Some,
        r is Some ==> r->0@ == x10_event(cb, cx, cy)->0,
{
    if cb < 32 {
        return None;
    }
    let x: u16 = to_zero_based(
        if cx < 32 {
            0
        } else {
            cx - 32
        },
    );
    let y: u16 = to_zero_based(
        if cy < 32 {
            0
        } else {
            cy - 32
        },
    );
    Some(make_mouse_event(cb - 32, x, y, false))
}

/// A pixel offset as a cell index, for a window of `pixels` pixels and `cells`
/// cells along one axis; unchanged where either is zero.
pub open spec fn pixel_to_cell(v: u16, pixels: u16, cells: u16) -> int {
    if pixels == 0 || cells == 0 {
        v as int
    } else if v >= pixels {
        cells - 1
    } else {
        (v * cells) / (pixels as int)
    }
}

fn to_cell(v: u16, pixels: u16, cells: u16) -> (r: u16)
    ensures
        r == pixel_to_cell(v, pixels, cells),
{
    if pixels == 0 || cells == 0 {
        v
    } else if v >= pixels {
        cells - 1
    } else {
        proof {
            assert(0 <= v * cells <= 0xffff * 0xffff) by (nonlinear_arith)
                requires
                    0 <= v <= 0xffff,
                    0 <= cells <= 0xffff,
            ;
            assert((v * cells) / (pixels as int) <= 0xffff) by (nonlinear_arith)
                requires
                    0 <= v < pixels <= 0xffff,
                    0 <= cells <= 0xffff,
            ;
        }
        ((v as u32 * cells as u32) / pixels as u32) as u16
    }
}

/// Convert a mouse event in pixels to cells, given the window size in both.
pub fn mouse_pixel_to_cell(
    mouse: Mouse,
    pixel_width: u16,
    pixel_height: u16,
    cell_width: u16,
    cell_height: u16,
) -> (r: Mouse)
    ensures
        r.x == pixel_to_cell(mouse.x, pixel_width, cell_width),
        r.y == pixel_to_cell(mouse.y, pixel_height, cell_height),
        r.button == mouse.button,
        r.modifiers == mouse.modifiers,
{
    Mouse {
        x: to_cell(mouse.x, pixel_width, cell_width),
        y: to_cell(mouse.y, pixel_height, cell_height),
        button: mouse.button,
        modifiers: mouse.modifiers,
    }
}

/// A converted coordinate is a cell of the window, whatever the pixel offset.
pub proof fn law_pixel_to_cell_in_window(v: u16, pixels: u16, cells: u16)
    requires
        pixels > 0,
        cells > 0,
    ensures
        0 <= pixel_to_cell(v, pixels, cells) < cells,
{
    if v < pixels {
        assert(0 <= (v * cells) / (pixels as int) < cells) by (nonlinear_arith)
            requires
                0 <= v < pixels,
                0 < cells,
        ;
    }
}

/// A pixel of the window lies in the cell it is converted to: cells have equal shares of the
/// pixels, in order.
pub proof fn law_pixel_lies_in_its_cell(v: u16, pixels: u16, cells: u16)
    requires
        v < pixels,
        cells > 0,
    ensures
        ({
            let c = pixel_to_cell(v, pixels, cells);
            c * pixels <= v * cells < (c + 1) * pixels
        }),
{
    let n = v * cells;
    let c = n / (pixels as int);
    vstd::arithmetic::div_mod::lemma_fundamental_div_mod(n, pixels as int);
    vstd::arithmetic::div_mod::lemma_mod_bound(n, pixels as int);
    assert((c + 1) * pixels == pixels * c + pixels) by (nonlinear_arith);
    assert(c * pixels == pixels * c) by (nonlinear_arith);
}

} // verus!
