//! Colours and sizes of the panel.

use vstd::prelude::*;

use crate::menu::CANDIDATE_HEIGHT;

verus! {

/// An opaque colour.
#[derive(Debug, Clone, Copy, PartialEq, Eq, Structural)]
pub struct Rgb {
    pub r: u8,
    pub g: u8,
    pub b: u8,
}

/// A colour with its opacity in percent.
#[derive(Debug, Clone, Copy, PartialEq, Eq, Structural)]
pub struct Rgba {
    pub rgb: Rgb,
    pub opacity: u8,
}

/// A font size: its whole points, and whether there is a fraction on top.
#[derive(Debug, Clone, Copy, PartialEq, Eq, Structural)]
pub struct FontSize {
    pub whole: u32,
    pub fraction: bool,
}

/// The largest font size that the default bar height has room for.
pub const DEFAULT_BAR_FONT: u32 = 16;

/// The largest bar height.
pub const MAX_BAR_HEIGHT: u32 = 72;

impl FontSize {
    /// Whether the size is above a number of whole points.
    pub open spec fn exceeds(self, points: int) -> bool {
        self.whole > points || (self.whole == points && self.fraction)
    }
}

/// The theme of the candidate bar, the menu and the other panels.
#[derive(Debug, Clone, Copy, PartialEq, Eq, Structural)]
pub struct PanelTheme {
    pub dark: bool,
    pub font_size: FontSize,
    /// The colour of highlights.
    pub primary: Rgb,
    pub bg: Rgba,
    pub border: Rgb,
    pub text_main: Rgb,
    /// The colour of numbers, comments and placeholders.
    pub text_comment: Rgb,
}

/// The light theme.
pub open spec fn light_theme(font_size: FontSize, primary: Rgb) -> PanelTheme {
    PanelTheme {
        dark: false,
        font_size,
        primary,
        bg: Rgba { rgb: Rgb { r: 0xF5, g: 0xF5, b: 0xF7 }, opacity: 98 },
        border: Rgb { r: 0xE0, g: 0xE0, b: 0xE0 },
        text_main: Rgb { r: 0x1F, g: 0x1F, b: 0x24 },
        text_comment: Rgb { r: 0x75, g: 0x75, b: 0x80 },
    }
}

/// The dark theme.
pub open spec fn dark_theme(font_size: FontSize, primary: Rgb) -> PanelTheme {
    PanelTheme {
        dark: true,
        font_size,
        primary,
        bg: Rgba { rgb: Rgb { r: 0x24, g: 0x26, b: 0x2B }, opacity: 96 },
        border: Rgb { r: 0x46, g: 0x49, b: 0x50 },
        text_main: Rgb { r: 0xED, g: 0xED, b: 0xF2 },
        text_comment: Rgb { r: 0x9E, g: 0xA0, b: 0xA8 },
    }
}

/// The colour of a triple.
pub open spec fn rgb_of(color: (u8, u8, u8)) -> Rgb {
    Rgb { r: color.0, g: color.1, b: color.2 }
}

impl PanelTheme {
    /// The light theme.
    pub fn light(font_size: FontSize, primary: (u8, u8, u8)) -> (theme: PanelTheme)
        ensures
            theme == light_theme(font_size, rgb_of(primary)),
    {
        PanelTheme {
            dark: false,
            font_size,
            primary: Rgb { r: primary.0, g: primary.1, b: primary.2 },
            bg: Rgba { rgb: Rgb { r: 0xF5, g: 0xF5, b: 0xF7 }, opacity: 98 },
            border: Rgb { r: 0xE0, g: 0xE0, b: 0xE0 },
            text_main: Rgb { r: 0x1F, g: 0x1F, b: 0x24 },
            text_comment: Rgb { r: 0x75, g: 0x75, b: 0x80 },
        }
    }

    /// The dark theme.
    pub fn dark(font_size: FontSize, primary: (u8, u8, u8)) -> (theme: PanelTheme)
        ensures
            theme == dark_theme(font_size, rgb_of(primary)),
    {
        PanelTheme {
            dark: true,
            font_size,
            primary: Rgb { r: primary.0, g: primary.1, b: primary.2 },
            bg: Rgba { rgb: Rgb { r: 0x24, g: 0x26, b: 0x2B }, opacity: 96 },
            border: Rgb { r: 0x46, g: 0x49, b: 0x50 },
            text_main: Rgb { r: 0xED, g: 0xED, b: 0xF2 },
            text_comment: Rgb { r: 0x9E, g: 0xA0, b: 0xA8 },
        }
    }

    /// The theme of a mode.
    pub fn for_mode(dark: bool, font_size: FontSize, primary: (u8, u8, u8)) -> (theme: PanelTheme)
        ensures
            theme == if dark {
                dark_theme(font_size, rgb_of(primary))
            } else {
                light_theme(font_size, rgb_of(primary))
            },
    {
        if dark {
            PanelTheme::dark(font_size, primary)
        } else {
            PanelTheme::light(font_size, primary)
        }
    }

    /// The height of the candidate bar for the theme's font.
    pub open spec fn bar_height_of(self) -> int {
        if !self.font_size.exceeds(DEFAULT_BAR_FONT as int) {
            CANDIDATE_HEIGHT as int
        } else if self.font_size.whole * 2 + 8 <= MAX_BAR_HEIGHT {
            self.font_size.whole * 2 + 8
        } else {
            MAX_BAR_HEIGHT as int
        }
    }

    /// The height of the candidate bar: the default height as long as the font
    /// fits in, twice the font size and some room above that, up to a limit.
    pub fn bar_height(&self) -> (height: u32)
        requires
            self.font_size.whole * 2 + 8 <= u32::MAX,
        ensures
            height == self.bar_height_of(),
    {
        let size: FontSize = self.font_size;
        if size.whole < DEFAULT_BAR_FONT || (size.whole == DEFAULT_BAR_FONT && !size.fraction) {
            CANDIDATE_HEIGHT
        } else {
            let height: u32 = size.whole * 2 + 8;
            if height < MAX_BAR_HEIGHT {
                height
            } else {
                MAX_BAR_HEIGHT
            }
        }
    }

    /// The colour of rows and buttons before their opacity: black on light
    /// panels, a bright grey on dark ones.
    pub fn neutral_row_bg(&self) -> (color: Rgb)
        ensures
            color == if self.dark {
                Rgb { r: 0x59, g: 0x5E, b: 0x6B }
            } else {
                Rgb { r: 0, g: 0, b: 0 }
            },
    {
        if self.dark {
            Rgb { r: 0x59, g: 0x5E, b: 0x6B }
        } else {
            Rgb { r: 0, g: 0, b: 0 }
        }
    }
}

/// The two modes differ in their colours, and share the highlight colour.
pub proof fn law_modes_differ(font_size: FontSize, primary: Rgb)
    ensures
        light_theme(font_size, primary).bg != dark_theme(font_size, primary).bg,
        light_theme(font_size, primary).text_main != dark_theme(font_size, primary).text_main,
        light_theme(font_size, primary).primary == dark_theme(font_size, primary).primary,
        light_theme(font_size, primary).bar_height_of() == dark_theme(
            font_size,
            primary,
        ).bar_height_of(),
{
}

/// The bar is never lower than by default and never higher than the limit, and a
/// larger font never makes it lower.
pub proof fn law_bar_height_is_bounded(a: PanelTheme, b: PanelTheme)
    requires
        a.font_size.whole <= b.font_size.whole,
        a.font_size.whole == b.font_size.whole && a.font_size.fraction ==> b.font_size.fraction,
    ensures
        CANDIDATE_HEIGHT <= a.bar_height_of() <= b.bar_height_of() <= MAX_BAR_HEIGHT,
{
}

/// The bar has its default height for fonts of up to 16 points, and twice the whole
/// points and 8 pixels for larger ones, up to 72.
pub proof fn law_bar_heights(theme: PanelTheme)
    ensures
        theme.font_size.whole < 16 ==> theme.bar_height_of() == 36,
        theme.font_size.whole == 16 && !theme.font_size.fraction ==> theme.bar_height_of() == 36,
        theme.font_size.whole == 16 && theme.font_size.fraction ==> theme.bar_height_of() == 40,
        16 < theme.font_size.whole <= 32 ==> theme.bar_height_of() == 2 * theme.font_size.whole
            + 8,
        theme.font_size.whole > 32 ==> theme.bar_height_of() == 72,
{
}

/// A theme has the font and the highlight colour that were asked for, and the colours of
/// its mode.
pub proof fn law_theme_colors(font_size: FontSize, primary: (u8, u8, u8))
    ensures
        ({
            let light = light_theme(font_size, rgb_of(primary));
            let dark = dark_theme(font_size, rgb_of(primary));
            &&& !light.dark && dark.dark
            &&& light.font_size == font_size && dark.font_size == font_size
            &&& light.primary == (Rgb { r: primary.0, g: primary.1, b: primary.2 })
            &&& dark.primary == light.primary
            &&& light.bg == (Rgba { rgb: Rgb { r: 0xF5, g: 0xF5, b: 0xF7 }, opacity: 98 })
            &&& dark.bg == (Rgba { rgb: Rgb { r: 0x24, g: 0x26, b: 0x2B }, opacity: 96 })
            &&& light.border == (Rgb { r: 0xE0, g: 0xE0, b: 0xE0 })
            &&& dark.border == (Rgb { r: 0x46, g: 0x49, b: 0x50 })
            &&& light.text_main == (Rgb { r: 0x1F, g: 0x1F, b: 0x24 })
            &&& dark.text_main == (Rgb { r: 0xED, g: 0xED, b: 0xF2 })
            &&& light.text_comment == (Rgb { r: 0x75, g: 0x75, b: 0x80 })
            &&& dark.text_comment == (Rgb { r: 0x9E, g: 0xA0, b: 0xA8 })
        }),
{
}

} // verus!
