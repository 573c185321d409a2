//! Drawing, modes and their teardown.

use uncurses::ansi::kitty::KittyKeyboardFlags;
use uncurses::ansi::mode::Mode;
use uncurses::color::{Color, Profile};
use uncurses::event::{Event, KeyModifiers, ModifyOtherKeysMode, Mouse, MouseButton};
use uncurses::layout::{Position, Size, Winsize};
use uncurses::screen::{
    Cell, CursorShape, Host, MouseTracking, Optimizations, Screen, ScreenOptions,
};

fn host() -> Host {
    Host { term_program: None, term_program_version: None, supports_decst8c: false }
}

fn screen(width: u16, height: u16) -> Screen {
    Screen::new(Size::new(width, height), Profile::TrueColor, Optimizations::empty(), host())
}

fn text(out: Vec<u8>) -> String {
    String::from_utf8(out).unwrap()
}

fn cell(glyph: char) -> Cell {
    Cell { glyph }
}

fn setters() -> Vec<(&'static str, fn(&mut Screen), &'static str)> {
    vec![
        ("paste", |s| s.enable_bracketed_paste(), "\x1b[?2004h"),
        ("focus", |s| s.enable_focus_events(), "\x1b[?1004h"),
        ("scheme", |s| s.enable_color_scheme_updates(), "\x1b[?2031h"),
        ("resize", |s| s.enable_in_band_resize(), "\x1b[?2048h"),
        ("visibility", |s| s.enable_visibility_reports(), "\x1b[?2033h"),
        ("style", |s| s.set_cursor_style(CursorShape::Bar, true), "\x1b[5 q"),
        ("pointer", |s| s.set_pointer_shape("text"), "\x1b]22;text\x1b\\"),
        ("title", |s| s.set_title("t"), "\x1b]0;t\x1b\\"),
        ("other keys", |s| s.set_modify_other_keys(ModifyOtherKeysMode::Mode2), "\x1b[>4;2m"),
        (
            "foreground",
            |s| s.set_foreground_color(Color::Rgb(1, 2, 3)),
            "\x1b]10;rgb:0101/0202/0303\x1b\\",
        ),
        (
            "background",
            |s| s.set_background_color(Color::Rgb(1, 2, 3)),
            "\x1b]11;rgb:0101/0202/0303\x1b\\",
        ),
        (
            "cursor color",
            |s| s.set_cursor_color(Color::Rgb(255, 0, 16)),
            "\x1b]12;rgb:ffff/0000/1010\x1b\\",
        ),
        (
            "palette",
            |s| s.set_palette_color(7, Color::Rgb(1, 2, 3)),
            "\x1b]4;7;rgb:0101/0202/0303\x1b\\",
        ),
    ]
}

#[test]
fn setters_stage_their_sequence_once() {
    for (name, set, bytes) in setters() {
        let mut s = screen(10, 2);
        set(&mut s);
        assert_eq!(text(s.take_output()), bytes, "{name}");
        set(&mut s);
        assert_eq!(text(s.take_output()), "", "{name} again");
    }
}

#[test]
fn resets_stage_only_what_was_set() {
    let resets: Vec<(&str, fn(&mut Screen), fn(&mut Screen), &str)> = vec![
        ("paste", |s| s.enable_bracketed_paste(), |s| s.disable_bracketed_paste(), "\x1b[?2004l"),
        ("focus", |s| s.enable_focus_events(), |s| s.disable_focus_events(), "\x1b[?1004l"),
        (
            "scheme",
            |s| s.enable_color_scheme_updates(),
            |s| s.disable_color_scheme_updates(),
            "\x1b[?2031l",
        ),
        ("resize", |s| s.enable_in_band_resize(), |s| s.disable_in_band_resize(), "\x1b[?2048l"),
        (
            "visibility",
            |s| s.enable_visibility_reports(),
            |s| s.disable_visibility_reports(),
            "\x1b[?2033l",
        ),
        (
            "pointer",
            |s| s.set_pointer_shape("text"),
            |s| s.reset_pointer_shape(),
            "\x1b]22;default\x1b\\",
        ),
        (
            "foreground",
            |s| s.set_foreground_color(Color::Indexed(1)),
            |s| s.reset_foreground_color(),
            "\x1b]110\x1b\\",
        ),
        (
            "background",
            |s| s.set_background_color(Color::Indexed(1)),
            |s| s.reset_background_color(),
            "\x1b]111\x1b\\",
        ),
        (
            "cursor color",
            |s| s.set_cursor_color(Color::Indexed(1)),
            |s| s.reset_cursor_color(),
            "\x1b]112\x1b\\",
        ),
        (
            "palette entry",
            |s| s.set_palette_color(3, Color::Indexed(1)),
            |s| s.reset_palette_color(3),
            "\x1b]104;3\x1b\\",
        ),
        (
            "palette",
            |s| s.set_palette_color(3, Color::Indexed(1)),
            |s| s.reset_palette_colors(),
            "\x1b]104\x1b\\",
        ),
    ];
    for (name, set, reset, bytes) in resets {
        let mut s = screen(10, 2);
        reset(&mut s);
        assert_eq!(text(s.take_output()), "", "{name} not set");
        set(&mut s);
        s.take_output();
        reset(&mut s);
        assert_eq!(text(s.take_output()), bytes, "{name}");
    }
}

#[test]
fn titles_are_set_together_or_apart() {
    let mut s = screen(10, 2);
    s.set_window_title("w");
    assert_eq!(text(s.take_output()), "\x1b]2;w\x1b\\");
    s.set_icon_title("i");
    assert_eq!(text(s.take_output()), "\x1b]1;i\x1b\\");
    s.pause();
    assert_eq!(text(s.take_output()), "\x1b]2;\x1b\\\x1b]1;\x1b\\");
    s.resume(None);
    assert_eq!(text(s.take_output()), "\x1b]2;w\x1b\\\x1b]1;i\x1b\\");
    s.set_title("both");
    s.take_output();
    s.pause();
    assert_eq!(text(s.take_output()), "\x1b]0;\x1b\\");
    s.resume(None);
    assert_eq!(text(s.take_output()), "\x1b]0;both\x1b\\");
    s.set_title("");
    assert_eq!(text(s.take_output()), "\x1b]0;\x1b\\");
    s.pause();
    assert_eq!(text(s.take_output()), "");
}

#[test]
fn mouse_tracking_adds_what_is_asked_for() {
    let mut s = screen(10, 2);
    s.set_origin_tracking(false);
    s.enable_mouse(MouseTracking::empty());
    assert_eq!(
        text(s.take_output()),
        "\x1b[?9;1000;1002;1003;1006;1016l\x1b[?1000;1002;1006h"
    );
    s.enable_mouse(MouseTracking::motion() | MouseTracking::pixels());
    assert_eq!(
        text(s.take_output()),
        "\x1b[?9;1000;1002;1003;1006;1016l\x1b[?1000;1002;1003;1006;1016h"
    );
    s.pause();
    assert_eq!(text(s.take_output()), "\x1b[?1000;1002;1003;1006;1016l");
    s.disable_mouse();
    assert_eq!(text(s.take_output()), "\x1b[?9;1000;1002;1003;1006;1016l");
    s.disable_mouse();
    assert_eq!(text(s.take_output()), "\x1b[?9;1000;1002;1003;1006;1016l");
    s.pause();
    assert_eq!(text(s.take_output()), "");
}

#[test]
fn teardown_and_return_mirror_each_other() {
    let mut s = screen(10, 2);
    for (_, set, _) in setters() {
        set(&mut s);
    }
    s.set_origin_tracking(false);
    s.enable_mouse(MouseTracking::empty());
    s.enter_alt_screen();
    s.hide_cursor();
    s.enable_grapheme_clusters();
    s.set_kitty_keyboard(Some(KittyKeyboardFlags::disambiguate_escape_codes()));
    s.take_output();
    s.pause();
    assert_eq!(
        text(s.take_output()),
        concat_all(&[
            "\x1b[0 q",
            "\x1b[?2004l",
            "\x1b[?1004l",
            "\x1b[?1000;1002;1006l",
            "\x1b[?2031l",
            "\x1b[?2048l",
            "\x1b[?2033l",
            "\x1b[>4m",
            "\x1b]110\x1b\\",
            "\x1b]111\x1b\\",
            "\x1b]112\x1b\\",
            "\x1b]104\x1b\\",
            "\x1b]0;\x1b\\",
            "\x1b]22;default\x1b\\",
            "\x1b[?25h",
            "\x1b[=0;1u",
            "\x1b[?1049l",
            "\x1b[=0;1u",
            "\x1b[?2027l",
        ])
    );
    assert_eq!(s.tracked_cursor(), None);
    s.resume(None);
    assert_eq!(
        text(s.take_output()),
        concat_all(&[
            "\x1b[=1;1u",
            "\x1b[?1049h",
            "\x1b[=1;1u",
            "\x1b[?2027h",
            "\x1b[?25l",
            "\x1b[5 q",
            "\x1b[?2031h",
            "\x1b[?2048h",
            "\x1b[?2033h",
            "\x1b[>4;2m",
            "\x1b[?2004h",
            "\x1b[?1004h",
            "\x1b[?1000;1002;1006h",
            "\x1b]10;rgb:0101/0202/0303\x1b\\",
            "\x1b]11;rgb:0101/0202/0303\x1b\\",
            "\x1b]12;rgb:ffff/0000/1010\x1b\\",
            "\x1b]4;7;rgb:0101/0202/0303\x1b\\",
            "\x1b]0;t\x1b\\",
            "\x1b]22;text\x1b\\",
        ])
    );
}

fn concat_all(parts: &[&str]) -> String {
    parts.concat()
}

#[test]
fn a_fresh_screen_has_nothing_to_tear_down() {
    assert_eq!(text(screen(10, 2).finish()), "");
    let mut s = screen(10, 2);
    s.pause();
    s.resume(None);
    assert_eq!(text(s.take_output()), "");
}

#[test]
fn finishing_hands_over_what_is_left() {
    let mut s = screen(10, 2);
    s.beep();
    s.enable_focus_events();
    assert_eq!(text(s.finish()), "\x07\x1b[?1004h\x1b[?1004l");
}

#[test]
fn teardown_leaves_the_cursor_below_the_last_frame() {
    let mut s = screen(3, 2);
    s.set_cell(Position::new(0, 0), &cell('x'));
    s.render();
    s.take_output();
    s.move_cursor_to(Position::origin());
    s.take_output();
    s.pause();
    assert_eq!(text(s.take_output()), "\n");
}

#[test]
fn the_palette_is_applied_in_order() {
    let mut s = screen(1, 1);
    s.set_palette_color(200, Color::Rgb(0, 0, 0));
    s.set_palette_color(0, Color::Rgb(255, 255, 255));
    s.set_palette_color(255, Color::Rgb(1, 1, 1));
    s.take_output();
    s.resume(None);
    assert_eq!(
        text(s.take_output()),
        "\x1b]4;0;rgb:ffff/ffff/ffff\x1b\\\x1b]4;200;rgb:0000/0000/0000\x1b\\\x1b]4;255;rgb:0101/0101/0101\x1b\\"
    );
}

#[test]
fn requests_stage_their_query() {
    let mut s = screen(1, 1);
    s.request_window_pixel_size();
    s.request_cell_pixel_size();
    s.request_kitty_keyboard();
    s.request_modify_other_keys();
    assert_eq!(text(s.take_output()), "\x1b[14t\x1b[16t\x1b[?u\x1b[?4m");
    s.request_foreground_color();
    s.request_background_color();
    s.request_cursor_color();
    s.request_palette_color(12);
    assert_eq!(
        text(s.take_output()),
        "\x1b]10;?\x1b\\\x1b]11;?\x1b\\\x1b]12;?\x1b\\\x1b]4;12;?\x1b\\"
    );
    s.request_mode(Mode::focus());
    s.request_cursor_position();
    s.request_color_scheme();
    s.request_visibility();
    assert_eq!(text(s.take_output()), "\x1b[?1004$p\x1b[6n\x1b[?996n\x1b[?998n");
    s.set_system_clipboard(b"hi");
    s.set_primary_clipboard(b"");
    s.request_system_clipboard();
    s.request_primary_clipboard();
    assert_eq!(
        text(s.take_output()),
        "\x1b]52;c;aGk=\x1b\\\x1b]52;p;\x1b\\\x1b]52;c;?\x1b\\\x1b]52;p;?\x1b\\"
    );
}

#[test]
fn indexed_colors_become_rgb() {
    let mut s = screen(1, 1);
    s.set_foreground_color(Color::Indexed(196));
    assert_eq!(text(s.take_output()), "\x1b]10;rgb:ffff/0000/0000\x1b\\");
    s.set_foreground_color(Color::Indexed(232));
    assert_eq!(text(s.take_output()), "\x1b]10;rgb:0808/0808/0808\x1b\\");
}

#[test]
fn rendering_draws_what_differs() {
    let mut s = screen(3, 2);
    s.hide_cursor();
    s.take_output();
    s.set_cell(Position::new(1, 1), &cell('é'));
    assert_eq!(s.cell(Position::new(1, 1)), Some(cell('é')));
    assert_eq!(s.cell(Position::new(3, 1)), None);
    s.render();
    let first = text(s.take_output());
    assert!(first.contains('é'), "{first:?}");
    s.render();
    assert_eq!(text(s.take_output()), "");
    s.set_cell(Position::new(1, 1), &cell('e'));
    s.render();
    let second = text(s.take_output());
    assert!(second.contains('e') && !second.contains('é'), "{second:?}");
}

#[test]
fn a_visible_cursor_is_hidden_while_drawing() {
    let mut s = screen(2, 1);
    s.set_cell(Position::origin(), &cell('a'));
    s.render();
    let out = text(s.take_output());
    assert!(out.starts_with("\x1b[?25l") && out.ends_with("\x1b[?25h"), "{out:?}");
    s.set_synchronized_output(true);
    s.set_cell(Position::origin(), &cell('b'));
    s.render();
    let out = text(s.take_output());
    assert!(out.starts_with("\x1b[?2026h") && out.ends_with("\x1b[?2026l"), "{out:?}");
    assert!(!out.contains("\x1b[?25"), "{out:?}");
}

#[test]
fn cells_can_be_borrowed() {
    let mut s = screen(2, 1);
    *s.cell_mut(Position::new(1, 0)).unwrap() = cell('z');
    assert_eq!(s.cell(Position::new(1, 0)), Some(cell('z')));
    assert_eq!(s.cell(Position::origin()), Some(Cell::blank()));
    assert!(s.cell_mut(Position::new(2, 0)).is_none());
}

#[test]
fn drawing_outside_the_area_does_nothing() {
    let mut s = screen(2, 1);
    s.set_cell(Position::new(9, 9), &cell('x'));
    assert_eq!(s.cell(Position::new(9, 9)), None);
    assert_eq!(s.cell(Position::new(1, 0)), Some(Cell::blank()));
}

#[test]
fn resizing_keeps_cells_and_redraws() {
    let mut s = screen(2, 1);
    s.set_cell(Position::origin(), &cell('k'));
    s.render();
    s.take_output();
    s.resize(Size::new(4, 2));
    assert_eq!(s.size(), Size::new(4, 2));
    assert_eq!(s.cell(Position::origin()), Some(cell('k')));
    assert_eq!(s.cell(Position::new(3, 1)), Some(Cell::blank()));
    s.render();
    let out = text(s.take_output());
    assert!(out.contains("\x1b[J") && out.contains('k'), "{out:?}");
}

#[test]
fn the_cursor_rests_where_it_is_wanted() {
    let mut s = screen(4, 3);
    s.hide_cursor();
    s.render();
    s.take_output();
    s.set_cursor_position(Position::new(9, 9));
    s.render();
    assert_eq!(s.tracked_cursor(), Some(Position::new(3, 2)));
    s.take_output();
    s.render();
    assert_eq!(text(s.take_output()), "");
    s.clear_cursor_position();
    s.move_cursor_to(Position::origin());
    s.take_output();
    s.render();
    assert_eq!(text(s.take_output()), "");
    assert_eq!(s.tracked_cursor(), Some(Position::origin()));
}

#[test]
fn moves_are_relative_inline_and_absolute_in_the_alternate_screen() {
    let mut s = screen(10, 5);
    s.set_tracked_cursor(Position::new(2, 3));
    s.move_cursor_by(2, -2);
    assert_eq!(text(s.take_output()), "\x1b[2A\r\x1b[4C");
    assert_eq!(s.tracked_cursor(), Some(Position::new(4, 1)));
    s.move_cursor_by(-9, 1);
    assert_eq!(text(s.take_output()), "\n\r");
    s.move_cursor_by(0, 0);
    assert_eq!(text(s.take_output()), "");
    s.enter_alt_screen();
    s.take_output();
    s.move_cursor_to(Position::new(4, 2));
    assert_eq!(text(s.take_output()), "\x1b[3;5H");
    s.invalidate_tracked_cursor();
    assert_eq!(s.tracked_cursor(), None);
    s.move_cursor_to(Position::new(4, 2));
    assert_eq!(text(s.take_output()), "\x1b[3;5H");
}

#[test]
fn the_alternate_screen_returns_the_cursor() {
    let mut s = screen(10, 5);
    s.set_tracked_cursor(Position::new(2, 3));
    s.set_kitty_keyboard(Some(KittyKeyboardFlags::report_event_types()));
    s.take_output();
    s.enter_alt_screen();
    assert_eq!(text(s.take_output()), "\x1b[?1049h\x1b[=2;1u");
    s.enter_alt_screen();
    assert_eq!(text(s.take_output()), "\x1b[?1049h");
    s.move_cursor_to(Position::origin());
    s.take_output();
    s.exit_alt_screen();
    assert_eq!(text(s.take_output()), "\x1b[?1049l\x1b[=2;1u");
    assert_eq!(s.tracked_cursor(), Some(Position::new(2, 3)));
    s.set_kitty_keyboard(None);
    assert_eq!(text(s.take_output()), "\x1b[=0;1u");
}

#[test]
fn render_modes_are_always_staged() {
    let mut s = screen(1, 1);
    s.show_cursor();
    s.hide_cursor();
    s.hide_cursor();
    s.enable_grapheme_clusters();
    assert!(s.grapheme_clusters());
    s.disable_grapheme_clusters();
    assert!(!s.grapheme_clusters());
    assert_eq!(
        text(s.take_output()),
        "\x1b[?25h\x1b[?25l\x1b[?25l\x1b[?2027h\x1b[?2027l"
    );
}

#[test]
fn lines_go_above_the_surface() {
    let mut s = screen(10, 2);
    s.set_tracked_cursor(Position::origin());
    s.insert_above("", &[]);
    assert_eq!(text(s.take_output()), "");
    s.insert_above("ab\ncd", &[2, 2]);
    assert_eq!(
        text(s.take_output()),
        "\r\x1b[1B\n\n\x1b[3A\x1b[2Lab\x1b[K\r\ncd\x1b[K\r\n"
    );
    assert_eq!(s.tracked_cursor(), Some(Position::origin()));
    // A line wider than the surface takes more rows.
    s.insert_above("x", &[25]);
    assert_eq!(text(s.take_output()), "\r\x1b[1B\n\n\n\x1b[4A\x1b[3Lx\x1b[K\r\n");
}

#[test]
fn raw_bytes_keep_their_order() {
    let mut s = screen(1, 1);
    s.enable_focus_events();
    s.write(b"raw");
    s.beep();
    assert_eq!(text(s.take_output()), "\x1b[?1004hraw\x07");
    assert_eq!(text(s.take_output()), "");
}

#[test]
fn the_origin_is_asked_for_when_the_mouse_is_on() {
    let mut s = screen(10, 2);
    s.set_tracked_cursor(Position::origin());
    s.enable_mouse(MouseTracking::empty());
    assert!(text(s.take_output()).ends_with("\x1b[6n"));
    s.observe_event(&Event::CursorPosition(Position::new(0, 7)));
    // The terminal's height is not known: the area's own is taken for it.
    assert_eq!(s.origin(), Position::origin());
    s.observe_event(&Event::Resize(Winsize { row: 24, col: 80, xpixel: 0, ypixel: 0 }));
    assert_eq!(text(s.take_output()), "\x1b[6n");
    s.observe_event(&Event::CursorPosition(Position::new(0, 7)));
    assert_eq!(s.origin(), Position::new(0, 7));
    // Not asked for: not the origin.
    s.observe_event(&Event::CursorPosition(Position::new(5, 5)));
    assert_eq!(s.origin(), Position::new(0, 7));
    let mouse = |x: u16, y: u16| Mouse::new(x, y, MouseButton::Left, KeyModifiers::empty());
    assert_eq!(s.mouse_to_origin(mouse(3, 8)), mouse(3, 1));
    assert_eq!(s.mouse_to_origin(mouse(3, 2)), mouse(3, 0));
    s.enter_alt_screen();
    assert_eq!(s.origin(), Position::origin());
    assert_eq!(s.mouse_to_origin(mouse(3, 8)), mouse(3, 8));
    s.exit_alt_screen();
    assert_eq!(s.origin(), Position::new(0, 7));
}

#[test]
fn a_reported_origin_keeps_the_area_on_the_terminal() {
    let mut s = screen(10, 4);
    s.observe_event(&Event::WindowCellSize { width: 80, height: 10 });
    s.enable_mouse(MouseTracking::empty());
    s.observe_event(&Event::CursorPosition(Position::new(2, 9)));
    assert_eq!(s.origin(), Position::new(2, 6));
    assert!(s.origin_tracking());
    s.set_origin_tracking(false);
    assert!(!s.origin_tracking());
    assert_eq!(s.origin(), Position::new(2, 6));
}

#[test]
fn pixel_mice_need_a_window_size() {
    let mut s = screen(100, 30);
    let mouse = Mouse::new(400, 240, MouseButton::Left, KeyModifiers::empty());
    assert_eq!(s.mouse_pixels_to_cells(mouse), None);
    s.observe_event(&Event::WindowPixelSize { width: 800, height: 480 });
    let m = s.mouse_pixels_to_cells(mouse).unwrap();
    assert_eq!((m.x, m.y), (50, 15));
    s.observe_event(&Event::WindowCellSize { width: 200, height: 60 });
    let m = s.mouse_pixels_to_cells(mouse).unwrap();
    assert_eq!((m.x, m.y), (100, 30));
}

#[test]
fn profile_and_optimizations_are_kept() {
    let mut s = screen(1, 1);
    assert_eq!(s.color_profile(), Profile::TrueColor);
    s.set_color_profile(Profile::Ansi);
    assert_eq!(s.color_profile(), Profile::Ansi);
    s.set_optimizations(Optimizations::tabs());
    assert!(s.optimizations().contains(Optimizations::tabs()));
}

#[test]
fn options_have_defaults() {
    let o = ScreenOptions::default();
    assert!(o.bracketed_paste && o.prefer_in_band_resize && o.query_capabilities);
    assert!(o.track_origin && !o.request_pixel_size_on_resize);
    assert_eq!(o.mouse, None);
    assert_eq!(o.query_drain_timeout, 300);
    assert_eq!(
        o.keyboard_enhancements,
        KittyKeyboardFlags::disambiguate_escape_codes()
    );
}
