use crytter::palette::{color_to_css, indexed_to_rgb, Theme};
use crytter::Color;

#[test]
fn ansi_16_colors() {
    assert_eq!(indexed_to_rgb(0), (0, 0, 0));
    assert_eq!(indexed_to_rgb(1), (205, 0, 0));
    assert_eq!(indexed_to_rgb(15), (255, 255, 255));
}

#[test]
fn color_cube() {
    assert_eq!(indexed_to_rgb(16), (0, 0, 0));
    assert_eq!(indexed_to_rgb(196), (255, 0, 0));
    assert_eq!(indexed_to_rgb(231), (255, 255, 255));
}

#[test]
fn grayscale_ramp() {
    assert_eq!(indexed_to_rgb(232), (8, 8, 8));
    assert_eq!(indexed_to_rgb(255), (238, 238, 238));
}

#[test]
fn color_to_css_variants() {
    assert_eq!(color_to_css(Color::Default, "#fff"), "#fff");
    assert_eq!(color_to_css(Color::Indexed(1), "#fff"), "rgb(205,0,0)");
    assert_eq!(color_to_css(Color::Rgb(10, 20, 30), "#fff"), "rgb(10,20,30)");
}

#[test]
fn cube_levels_and_bright_blue() {
    // 16 + 36*1 + 6*2 + 3 = 67: levels 95, 135, 175
    assert_eq!(indexed_to_rgb(67), (95, 135, 175));
    assert_eq!(indexed_to_rgb(12), (92, 92, 255));
    assert_eq!(color_to_css(Color::Indexed(244), ""), "rgb(128,128,128)");
}

#[test]
fn default_theme_colors() {
    let t = Theme::default();
    assert_eq!(t.foreground, "#d4d4d4");
    assert_eq!(t.background, "#1e1e1e");
    assert_eq!(t.cursor_color, "#d4d4d4");
    assert_eq!(t.selection_bg, "rgba(68,138,255,0.35)");
    assert_eq!(t.selection_fg, "#ffffff");
}
