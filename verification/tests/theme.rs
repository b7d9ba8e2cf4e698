use feline::theme::{composer_frame, header_frame, message_frame, rgb, visuals, window_frame, Palette, Rgba};

#[test]
fn palette_colors() {
    assert_eq!(Palette::background(), Rgba { r: 6, g: 10, b: 18, a: 255 });
    assert_eq!(Palette::panel(), Rgba { r: 8, g: 12, b: 21, a: 242 });
    assert_eq!(Palette::cyan(), rgb(91, 218, 240));
    assert_eq!(Palette::violet(), rgb(178, 137, 236));
}

#[test]
fn frames() {
    let w = window_frame();
    assert_eq!(w.fill, Palette::panel());
    assert_eq!(w.stroke.color, Palette::panel_stroke());
    assert_eq!(w.stroke.width, 1);
    assert_eq!((w.corner_radius, w.margin_x, w.margin_y), (24, 12, 12));
    let h = header_frame();
    assert_eq!(h.fill, Palette::header());
    assert_eq!((h.corner_radius, h.margin_x, h.margin_y), (18, 12, 9));
    let c = composer_frame();
    assert_eq!(c.fill, Rgba { r: 13, g: 20, b: 33, a: 246 });
    assert_eq!((c.corner_radius, c.margin_x, c.margin_y), (18, 10, 8));
}

#[test]
fn bubbles_differ_by_author() {
    let user = message_frame(true);
    let bot = message_frame(false);
    assert_eq!(user.fill, Palette::user_bubble());
    assert_eq!(user.stroke.color, rgb(91, 64, 126));
    assert_eq!(bot.fill, Palette::bot_bubble());
    assert_eq!(bot.stroke.color, rgb(39, 54, 80));
    assert_eq!((user.corner_radius, user.margin_x, user.margin_y), (18, 12, 9));
}

#[test]
fn widget_visuals() {
    let v = visuals();
    assert_eq!(v.override_text_color, Palette::text());
    assert_eq!(v.error_fg_color, rgb(255, 116, 148));
    assert_eq!(v.hovered.bg_stroke.color, Palette::cyan());
    assert_eq!(v.active.fg_stroke.color, rgb(255, 255, 255));
    assert_eq!(v.inactive.weak_bg_fill, rgb(21, 30, 48));
    assert_eq!(v.noninteractive.corner_radius, 14);
    assert_eq!(v.selection_bg_fill, Rgba { r: 66, g: 224, b: 255, a: 64 });
    assert!(v.button_frame && v.slider_trailing_fill);
}
