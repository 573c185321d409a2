//! Events.

use uncurses::event::ColorScheme;

#[test]
fn color_scheme_display() {
    assert_eq!(ColorScheme::Dark.label(), "dark");
    assert_eq!(ColorScheme::Light.label(), "light");
}
