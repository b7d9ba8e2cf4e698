//! The overlay's glass theme: its palette, the frames of its panels and chat
//! bubbles, and the colors of its widgets in each interaction state.

use vstd::prelude::*;

verus! {

/// A color with premultiplied alpha, one byte per channel.
#[derive(Clone, Copy, Debug, PartialEq, Eq, Structural)]
pub struct Rgba {
    pub r: u8,
    pub g: u8,
    pub b: u8,
    pub a: u8,
}

/// An opaque color.
pub open spec fn opaque(r: u8, g: u8, b: u8) -> Rgba {
    Rgba { r, g, b, a: 255 }
}

/// A color from premultiplied channels.
pub open spec fn premultiplied(r: u8, g: u8, b: u8, a: u8) -> Rgba {
    Rgba { r, g, b, a }
}

/// The opaque color `(r, g, b)`.
pub fn rgb(r: u8, g: u8, b: u8) -> (c: Rgba)
    ensures
        c == opaque(r, g, b),
{
    Rgba { r, g, b, a: 255 }
}

/// The color with premultiplied channels `(r, g, b, a)`.
pub fn rgba_premultiplied(r: u8, g: u8, b: u8, a: u8) -> (c: Rgba)
    ensures
        c == premultiplied(r, g, b, a),
{
    Rgba { r, g, b, a }
}

/// A line of a whole number of points in one color.
#[derive(Clone, Copy, Debug, PartialEq, Eq, Structural)]
pub struct StrokeStyle {
    pub width: u8,
    pub color: Rgba,
}

/// A hairline (one point wide) in `color`.
pub open spec fn hairline(color: Rgba) -> StrokeStyle {
    StrokeStyle { width: 1, color }
}

fn hairline_of(color: Rgba) -> (s: StrokeStyle)
    ensures
        s == hairline(color),
{
    StrokeStyle { width: 1, color }
}

/// The look of a framed panel: fill, outline, rounded corners, and the inner
/// margin on the left and right (`margin_x`) and on the top and bottom
/// (`margin_y`).
#[derive(Clone, Copy, Debug, PartialEq, Eq, Structural)]
pub struct FrameStyle {
    pub fill: Rgba,
    pub stroke: StrokeStyle,
    pub corner_radius: u8,
    pub margin_x: i8,
    pub margin_y: i8,
}

/// The named colors of the theme.
pub struct Palette;

impl Palette {
    /// The backdrop behind every panel.
    pub fn background() -> (c: Rgba)
        ensures
            c == opaque(6, 10, 18),
    {
        rgb(6, 10, 18)
    }

    /// The glass of the main panel.
    pub fn panel() -> (c: Rgba)
        ensures
            c == premultiplied(8, 12, 21, 242),
    {
        rgba_premultiplied(8, 12, 21, 242)
    }

    /// The outline of the main panel.
    pub fn panel_stroke() -> (c: Rgba)
        ensures
            c == opaque(42, 56, 83),
    {
        rgb(42, 56, 83)
    }

    /// The glass of the title bar.
    pub fn header() -> (c: Rgba)
        ensures
            c == premultiplied(13, 19, 31, 236),
    {
        rgba_premultiplied(13, 19, 31, 236)
    }

    /// The background of text inputs.
    pub fn input() -> (c: Rgba)
        ensures
            c == opaque(17, 24, 38),
    {
        rgb(17, 24, 38)
    }

    /// The fill of the assistant's chat bubbles.
    pub fn bot_bubble() -> (c: Rgba)
        ensures
            c == opaque(22, 31, 48),
    {
        rgb(22, 31, 48)
    }

    /// The fill of the user's chat bubbles.
    pub fn user_bubble() -> (c: Rgba)
        ensures
            c == opaque(34, 27, 48),
    {
        rgb(34, 27, 48)
    }

    /// The main text color.
    pub fn text() -> (c: Rgba)
        ensures
            c == opaque(235, 241, 255),
    {
        rgb(235, 241, 255)
    }

    /// The color of secondary text.
    pub fn muted() -> (c: Rgba)
        ensures
            c == opaque(145, 158, 188),
    {
        rgb(145, 158, 188)
    }

    /// The cyan accent.
    pub fn cyan() -> (c: Rgba)
        ensures
            c == opaque(91, 218, 240),
    {
        rgb(91, 218, 240)
    }

    /// The violet accent.
    pub fn violet() -> (c: Rgba)
        ensures
            c == opaque(178, 137, 236),
    {
        rgb(178, 137, 236)
    }
}

/// The frame of the main window: panel glass, a hairline in the panel
/// outline color, corners of radius 24, and a margin of 12 on every side.
pub fn window_frame() -> (f: FrameStyle)
    ensures
        f == (FrameStyle {
            fill: premultiplied(8, 12, 21, 242),
            stroke: hairline(opaque(42, 56, 83)),
            corner_radius: 24,
            margin_x: 12,
            margin_y: 12,
        }),
{
    FrameStyle {
        fill: Palette::panel(),
        stroke: hairline_of(Palette::panel_stroke()),
        corner_radius: 24,
        margin_x: 12,
        margin_y: 12,
    }
}

/// The frame of the title bar.
pub fn header_frame() -> (f: FrameStyle)
    ensures
        f == (FrameStyle {
            fill: premultiplied(13, 19, 31, 236),
            stroke: hairline(opaque(35, 48, 76)),
            corner_radius: 18,
            margin_x: 12,
            margin_y: 9,
        }),
{
    FrameStyle {
        fill: Palette::header(),
        stroke: hairline_of(rgb(35, 48, 76)),
        corner_radius: 18,
        margin_x: 12,
        margin_y: 9,
    }
}

/// The frame of the message composer.
pub fn composer_frame() -> (f: FrameStyle)
    ensures
        f == (FrameStyle {
            fill: premultiplied(13, 20, 33, 246),
            stroke: hairline(opaque(38, 54, 83)),
            corner_radius: 18,
            margin_x: 10,
            margin_y: 8,
        }),
{
    FrameStyle {
        fill: rgba_premultiplied(13, 20, 33, 246),
        stroke: hairline_of(rgb(38, 54, 83)),
        corner_radius: 18,
        margin_x: 10,
        margin_y: 8,
    }
}

/// The fill and outline color of a chat bubble: violet-tinted for the user,
/// blue-tinted for the assistant.
pub open spec fn bubble_colors(is_user: bool) -> (Rgba, Rgba) {
    if is_user {
        (opaque(34, 27, 48), opaque(91, 64, 126))
    } else {
        (opaque(22, 31, 48), opaque(39, 54, 80))
    }
}

/// The frame of a chat bubble.
pub fn message_frame(is_user: bool) -> (f: FrameStyle)
    ensures
        f == (FrameStyle {
            fill: bubble_colors(is_user).0,
            stroke: hairline(bubble_colors(is_user).1),
            corner_radius: 18,
            margin_x: 12,
            margin_y: 9,
        }),
{
    let (fill, stroke) = if is_user {
        (Palette::user_bubble(), rgb(91, 64, 126))
    } else {
        (Palette::bot_bubble(), rgb(39, 54, 80))
    };
    FrameStyle { fill, stroke: hairline_of(stroke), corner_radius: 18, margin_x: 12, margin_y: 9 }
}

/// The look of widgets in one interaction state.
#[derive(Clone, Copy, Debug, PartialEq, Eq, Structural)]
pub struct WidgetStyle {
    pub bg_fill: Rgba,
    pub weak_bg_fill: Rgba,
    pub bg_stroke: StrokeStyle,
    pub fg_stroke: StrokeStyle,
    pub corner_radius: u8,
}

/// The theme's settings over the stock dark visuals.
#[derive(Clone, Copy, Debug, PartialEq, Eq, Structural)]
pub struct ThemeVisuals {
    pub override_text_color: Rgba,
    pub weak_text_color: Rgba,
    pub window_fill: Rgba,
    pub panel_fill: Rgba,
    pub faint_bg_color: Rgba,
    pub extreme_bg_color: Rgba,
    pub code_bg_color: Rgba,
    pub warn_fg_color: Rgba,
    pub error_fg_color: Rgba,
    pub window_corner_radius: u8,
    pub menu_corner_radius: u8,
    pub window_stroke: StrokeStyle,
    pub button_frame: bool,
    pub slider_trailing_fill: bool,
    pub noninteractive: WidgetStyle,
    pub inactive: WidgetStyle,
    pub hovered: WidgetStyle,
    pub active: WidgetStyle,
    pub selection_bg_fill: Rgba,
    pub selection_stroke: StrokeStyle,
}

/// A widget style with corner radius 14 and hairline outlines.
pub open spec fn widget(bg_fill: Rgba, weak_bg_fill: Rgba, bg_stroke: Rgba, fg_stroke: Rgba) -> WidgetStyle {
    WidgetStyle {
        bg_fill,
        weak_bg_fill,
        bg_stroke: hairline(bg_stroke),
        fg_stroke: hairline(fg_stroke),
        corner_radius: 14,
    }
}

fn widget_of(bg_fill: Rgba, weak_bg_fill: Rgba, bg_stroke: Rgba, fg_stroke: Rgba) -> (w: WidgetStyle)
    ensures
        w == widget(bg_fill, weak_bg_fill, bg_stroke, fg_stroke),
{
    WidgetStyle {
        bg_fill,
        weak_bg_fill,
        bg_stroke: hairline_of(bg_stroke),
        fg_stroke: hairline_of(fg_stroke),
        corner_radius: 14,
    }
}

/// The theme's visual settings.
pub open spec fn theme_visuals() -> ThemeVisuals {
    ThemeVisuals {
        override_text_color: opaque(235, 241, 255),
        weak_text_color: opaque(145, 158, 188),
        window_fill: premultiplied(8, 12, 21, 242),
        panel_fill: opaque(6, 10, 18),
        faint_bg_color: opaque(13, 19, 31),
        extreme_bg_color: opaque(5, 8, 14),
        code_bg_color: opaque(17, 24, 38),
        warn_fg_color: opaque(178, 137, 236),
        error_fg_color: opaque(255, 116, 148),
        window_corner_radius: 24,
        menu_corner_radius: 14,
        window_stroke: hairline(opaque(42, 56, 83)),
        button_frame: true,
        slider_trailing_fill: true,
        noninteractive: widget(
            premultiplied(8, 12, 21, 242),
            opaque(17, 24, 38),
            opaque(34, 48, 75),
            opaque(235, 241, 255),
        ),
        inactive: widget(
            opaque(17, 24, 38),
            opaque(21, 30, 48),
            opaque(45, 63, 98),
            opaque(235, 241, 255),
        ),
        hovered: widget(
            opaque(33, 49, 76),
            opaque(38, 57, 88),
            opaque(91, 218, 240),
            opaque(255, 255, 255),
        ),
        active: widget(
            opaque(47, 73, 108),
            opaque(53, 79, 116),
            opaque(91, 218, 240),
            opaque(255, 255, 255),
        ),
        selection_bg_fill: premultiplied(66, 224, 255, 64),
        selection_stroke: hairline(opaque(91, 218, 240)),
    }
}

/// The colors, outlines and corner radii that the theme sets on the stock
/// dark visuals.
pub fn visuals() -> (v: ThemeVisuals)
    ensures
        v == theme_visuals(),
{
    let white = rgb(255, 255, 255);
    ThemeVisuals {
        override_text_color: Palette::text(),
        weak_text_color: Palette::muted(),
        window_fill: Palette::panel(),
        panel_fill: Palette::background(),
        faint_bg_color: rgb(13, 19, 31),
        extreme_bg_color: rgb(5, 8, 14),
        code_bg_color: Palette::input(),
        warn_fg_color: Palette::violet(),
        error_fg_color: rgb(255, 116, 148),
        window_corner_radius: 24,
        menu_corner_radius: 14,
        window_stroke: hairline_of(Palette::panel_stroke()),
        button_frame: true,
        slider_trailing_fill: true,
        noninteractive: widget_of(Palette::panel(), Palette::input(), rgb(34, 48, 75), Palette::text()),
        inactive: widget_of(Palette::input(), rgb(21, 30, 48), rgb(45, 63, 98), Palette::text()),
        hovered: widget_of(rgb(33, 49, 76), rgb(38, 57, 88), Palette::cyan(), white),
        active: widget_of(rgb(47, 73, 108), rgb(53, 79, 116), Palette::cyan(), white),
        selection_bg_fill: rgba_premultiplied(66, 224, 255, 64),
        selection_stroke: hairline_of(Palette::cyan()),
    }
}

} // verus!
