use stonemite::appearance::{
    badge_color_for_number, color_for_number, format_label, label_font_weight, label_model, opacity_percent_to_alpha,
    LabelFontWeight,
};
use stonemite::clients::EqWindow;
use stonemite::geometry::{colorref, Color, Rect, Scale};
use stonemite::labels::{required_width, LabelLayout, LabelStyle};

fn style() -> LabelStyle {
    LabelStyle::new(Scale::unit(), 48)
}

#[test]
fn lays_out_badge_and_text_without_class_icon() {
    let layout = LabelLayout::new(Rect::new(0, 0, 200, 48), style(), false);

    assert_eq!(layout.background, Rect::new(0, 0, 200, 48));
    assert_eq!(layout.badge, Rect::new(4, 3, 46, 45));
    assert_eq!(layout.icon, None);
    assert_eq!(layout.text, Rect::new(52, 0, 200, 48));
    assert_eq!(layout.text_shadow, Rect::new(53, 1, 200, 48));
    assert_eq!(layout.corner_radius, 8);
}

#[test]
fn reserves_badge_sized_class_icon() {
    let layout = LabelLayout::new(Rect::new(10, 20, 230, 68), style(), true);

    assert_eq!(layout.badge, Rect::new(14, 23, 56, 65));
    assert_eq!(layout.icon, Some(Rect::new(62, 23, 104, 65)));
    assert_eq!(layout.text, Rect::new(110, 20, 230, 68));
}

#[test]
fn required_width_preserves_padding_and_cap() {
    assert_eq!(required_width(100, style(), false, i32::MAX), 164);
    assert_eq!(required_width(100, style(), true, i32::MAX), 218);
    assert_eq!(required_width(100, style(), true, 180), 180);
}

#[test]
fn scales_geometry_for_dpi() {
    let style = LabelStyle::new(Scale::from_dpi(144), 48);
    let layout = LabelLayout::new(Rect::new(0, 0, 300, 72), style, true);

    assert_eq!(style.height(), 72);
    assert_eq!(layout.badge, Rect::new(6, 4, 69, 67));
    assert_eq!(layout.icon, Some(Rect::new(78, 4, 141, 67)));
    assert_eq!(layout.text.left, 150);
    assert_eq!(layout.corner_radius, 12);
}

#[test]
fn colorref_conversion_is_explicit() {
    assert_eq!(Color::from_colorref(0x00D4864A), Color { red: 0x4a, green: 0x86, blue: 0xd4 });
}

#[test]
fn colorref_round_trips() {
    let color = Color { red: 1, green: 2, blue: 3 };
    assert_eq!(colorref(color), 0x00030201);
    assert_eq!(Color::from_colorref(colorref(color)), color);
}

#[test]
fn opacity_percent_scales_to_alpha() {
    assert_eq!(opacity_percent_to_alpha(10), 25);
    assert_eq!(opacity_percent_to_alpha(80), 204);
    assert_eq!(opacity_percent_to_alpha(100), 255);
    assert_eq!(opacity_percent_to_alpha(500), 255);
    assert_eq!(opacity_percent_to_alpha(0), 0);
}

#[test]
fn label_colors_cycle_from_number_one() {
    assert_eq!(color_for_number(0), 0x00D4864A);
    assert_eq!(color_for_number(1), 0x00D4864A);
    assert_eq!(color_for_number(2), 0x0060B06A);
    assert_eq!(color_for_number(6), 0x00A8C858);
    assert_eq!(color_for_number(7), 0x00D4864A);
    assert_eq!(badge_color_for_number(3), 0x003838B8);
    assert_eq!(badge_color_for_number(9), 0x003838B8);
}

#[test]
fn label_model_uses_the_number_badge_color() {
    let model = label_model("Bilka", Some("WAR"), 2, 0x00D4864A);
    assert_eq!(model.text, "Bilka");
    assert_eq!(model.class, Some("WAR"));
    assert_eq!(model.background, Color::from_colorref(0x00D4864A));
    assert_eq!(model.badge_background, Color::from_colorref(0x00409048));
}

#[test]
fn font_weights_follow_the_configured_weight() {
    assert_eq!(label_font_weight(LabelFontWeight::Regular), 400);
    assert_eq!(label_font_weight(LabelFontWeight::Semibold), 600);
    assert_eq!(label_font_weight(LabelFontWeight::Bold), 700);
    assert_eq!(label_font_weight(LabelFontWeight::Heavy), 900);
}

#[test]
fn label_text_is_the_character_name() {
    let mut window = EqWindow { hwnd: 0, pid: 1, number: 1, character: None, server: None, class: None };
    assert_eq!(format_label(&window), "");
    window.character = Some("Bilka".to_owned());
    assert_eq!(format_label(&window), "Bilka");
}
