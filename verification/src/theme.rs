//! The colour palettes of the interface.

use vstd::prelude::*;

verus! {

/// An RGBA colour with 8 bits per channel.
#[derive(Debug, Clone, Copy, PartialEq, Eq, Structural)]
pub struct Color {
    pub r: u8,
    pub g: u8,
    pub b: u8,
    pub a: u8,
}

/// An opaque colour.
pub open spec fn rgb(r: u8, g: u8, b: u8) -> Color {
    Color { r, g, b, a: 255 }
}

impl Color {
    /// The opaque colour with the given red, green and blue.
    pub fn from_rgb(r: u8, g: u8, b: u8) -> (c: Self)
        ensures
            c == rgb(r, g, b),
    {
        Color { r, g, b, a: 255 }
    }
}

/// The colours of a theme variant.
#[derive(Debug, Clone, Copy, PartialEq, Eq, Structural)]
pub struct Theme {
    pub rosewater: Color,
    pub flamingo: Color,
    pub pink: Color,
    pub mauve: Color,
    pub red: Color,
    pub maroon: Color,
    pub peach: Color,
    pub yellow: Color,
    pub green: Color,
    pub teal: Color,
    pub sky: Color,
    pub sapphire: Color,
    pub blue: Color,
    pub lavender: Color,
    pub text: Color,
    pub subtext1: Color,
    pub subtext0: Color,
    pub overlay2: Color,
    pub overlay1: Color,
    pub overlay0: Color,
    pub surface2: Color,
    pub surface1: Color,
    pub surface0: Color,
    pub base: Color,
    pub mantle: Color,
    pub crust: Color,
}

/// The light palette, after GitHub's light theme.
pub open spec fn light_palette() -> Theme {
    Theme {
        rosewater: rgb(255, 243, 245),
        flamingo: rgb(255, 230, 230),
        pink: rgb(255, 215, 235),
        mauve: rgb(205, 140, 255),
        red: rgb(255, 87, 87),
        maroon: rgb(200, 55, 65),
        peach: rgb(255, 171, 96),
        yellow: rgb(255, 212, 0),
        green: rgb(34, 197, 94),
        teal: rgb(0, 204, 204),
        sky: rgb(85, 172, 238),
        sapphire: rgb(56, 139, 253),
        blue: rgb(36, 114, 200),
        lavender: rgb(194, 196, 255),
        text: rgb(36, 41, 46),
        subtext1: rgb(88, 96, 105),
        subtext0: rgb(110, 118, 129),
        overlay2: rgb(175, 184, 193),
        overlay1: rgb(208, 215, 222),
        overlay0: rgb(230, 235, 240),
        surface2: rgb(242, 245, 248),
        surface1: rgb(246, 248, 250),
        surface0: rgb(255, 255, 255),
        base: rgb(255, 255, 255),
        mantle: rgb(246, 248, 250),
        crust: rgb(240, 240, 240),
    }
}

/// The dark palette, after GitHub's dark theme.
pub open spec fn dark_palette() -> Theme {
    Theme {
        rosewater: rgb(255, 228, 225),
        flamingo: rgb(255, 204, 204),
        pink: rgb(250, 175, 230),
        mauve: rgb(180, 140, 255),
        red: rgb(248, 81, 73),
        maroon: rgb(200, 70, 80),
        peach: rgb(255, 150, 100),
        yellow: rgb(255, 205, 68),
        green: rgb(74, 222, 128),
        teal: rgb(112, 255, 255),
        sky: rgb(103, 190, 255),
        sapphire: rgb(56, 180, 255),
        blue: rgb(88, 166, 255),
        lavender: rgb(160, 170, 255),
        text: rgb(201, 209, 217),
        subtext1: rgb(139, 148, 158),
        subtext0: rgb(110, 118, 129),
        overlay2: rgb(65, 71, 78),
        overlay1: rgb(48, 54, 61),
        overlay0: rgb(38, 44, 51),
        surface2: rgb(33, 38, 45),
        surface1: rgb(22, 27, 34),
        surface0: rgb(13, 17, 23),
        base: rgb(13, 17, 23),
        mantle: rgb(22, 27, 34),
        crust: rgb(0, 0, 0),
    }
}

/// The light theme.
pub fn github_light() -> (t: Theme)
    ensures
        t == light_palette(),
{
    Theme {
        rosewater: Color::from_rgb(255, 243, 245),
        flamingo: Color::from_rgb(255, 230, 230),
        pink: Color::from_rgb(255, 215, 235),
        mauve: Color::from_rgb(205, 140, 255),
        red: Color::from_rgb(255, 87, 87),
        maroon: Color::from_rgb(200, 55, 65),
        peach: Color::from_rgb(255, 171, 96),
        yellow: Color::from_rgb(255, 212, 0),
        green: Color::from_rgb(34, 197, 94),
        teal: Color::from_rgb(0, 204, 204),
        sky: Color::from_rgb(85, 172, 238),
        sapphire: Color::from_rgb(56, 139, 253),
        blue: Color::from_rgb(36, 114, 200),
        lavender: Color::from_rgb(194, 196, 255),
        text: Color::from_rgb(36, 41, 46),
        subtext1: Color::from_rgb(88, 96, 105),
        subtext0: Color::from_rgb(110, 118, 129),
        overlay2: Color::from_rgb(175, 184, 193),
        overlay1: Color::from_rgb(208, 215, 222),
        overlay0: Color::from_rgb(230, 235, 240),
        surface2: Color::from_rgb(242, 245, 248),
        surface1: Color::from_rgb(246, 248, 250),
        surface0: Color::from_rgb(255, 255, 255),
        base: Color::from_rgb(255, 255, 255),
        mantle: Color::from_rgb(246, 248, 250),
        crust: Color::from_rgb(240, 240, 240),
    }
}

/// The dark theme.
pub fn github_dark() -> (t: Theme)
    ensures
        t == dark_palette(),
{
    Theme {
        rosewater: Color::from_rgb(255, 228, 225),
        flamingo: Color::from_rgb(255, 204, 204),
        pink: Color::from_rgb(250, 175, 230),
        mauve: Color::from_rgb(180, 140, 255),
        red: Color::from_rgb(248, 81, 73),
        maroon: Color::from_rgb(200, 70, 80),
        peach: Color::from_rgb(255, 150, 100),
        yellow: Color::from_rgb(255, 205, 68),
        green: Color::from_rgb(74, 222, 128),
        teal: Color::from_rgb(112, 255, 255),
        sky: Color::from_rgb(103, 190, 255),
        sapphire: Color::from_rgb(56, 180, 255),
        blue: Color::from_rgb(88, 166, 255),
        lavender: Color::from_rgb(160, 170, 255),
        text: Color::from_rgb(201, 209, 217),
        subtext1: Color::from_rgb(139, 148, 158),
        subtext0: Color::from_rgb(110, 118, 129),
        overlay2: Color::from_rgb(65, 71, 78),
        overlay1: Color::from_rgb(48, 54, 61),
        overlay0: Color::from_rgb(38, 44, 51),
        surface2: Color::from_rgb(33, 38, 45),
        surface1: Color::from_rgb(22, 27, 34),
        surface0: Color::from_rgb(13, 17, 23),
        base: Color::from_rgb(13, 17, 23),
        mantle: Color::from_rgb(22, 27, 34),
        crust: Color::from_rgb(0, 0, 0),
    }
}

} // verus!
