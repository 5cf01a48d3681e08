//! The color palette side of the terminal framebuffer.

use vstd::prelude::*;
use crate::oklab::StraightRgba;

verus! {

/// Number of indices used by `IndexedColor`.
pub const INDEXED_COLORS_COUNT: usize = 18;

/// Standard 16 VT colors and the default background/foreground.
#[derive(Debug, Clone, Copy, PartialEq, Eq, Structural)]
pub enum IndexedColor {
    Black,
    Red,
    Green,
    Yellow,
    Blue,
    Magenta,
    Cyan,
    White,
    BrightBlack,
    BrightRed,
    BrightGreen,
    BrightYellow,
    BrightBlue,
    BrightMagenta,
    BrightCyan,
    BrightWhite,
    Background,
    Foreground,
}

impl IndexedColor {
    /// Position in the palette.
    pub open spec fn idx(self) -> int {
        match self {
            IndexedColor::Black => 0,
            IndexedColor::Red => 1,
            IndexedColor::Green => 2,
            IndexedColor::Yellow => 3,
            IndexedColor::Blue => 4,
            IndexedColor::Magenta => 5,
            IndexedColor::Cyan => 6,
            IndexedColor::White => 7,
            IndexedColor::BrightBlack => 8,
            IndexedColor::BrightRed => 9,
            IndexedColor::BrightGreen => 10,
            IndexedColor::BrightYellow => 11,
            IndexedColor::BrightBlue => 12,
            IndexedColor::BrightMagenta => 13,
            IndexedColor::BrightCyan => 14,
            IndexedColor::BrightWhite => 15,
            IndexedColor::Background => 16,
            IndexedColor::Foreground => 17,
        }
    }

    /// Position in the palette.
    pub fn index(self) -> (r: usize)
        ensures
            r == self.idx(),
            r < INDEXED_COLORS_COUNT,
    {
        match self {
            IndexedColor::Black => 0,
            IndexedColor::Red => 1,
            IndexedColor::Green => 2,
            IndexedColor::Yellow => 3,
            IndexedColor::Blue => 4,
            IndexedColor::Magenta => 5,
            IndexedColor::Cyan => 6,
            IndexedColor::White => 7,
            IndexedColor::BrightBlack => 8,
            IndexedColor::BrightRed => 9,
            IndexedColor::BrightGreen => 10,
            IndexedColor::BrightYellow => 11,
            IndexedColor::BrightBlue => 12,
            IndexedColor::BrightMagenta => 13,
            IndexedColor::BrightCyan => 14,
            IndexedColor::BrightWhite => 15,
            IndexedColor::Background => 16,
            IndexedColor::Foreground => 17,
        }
    }
}

/// The fallback palette (the Ottosson theme), written `0xRRGGBBAA`.
pub fn default_theme() -> (r: [StraightRgba; INDEXED_COLORS_COUNT]) {
    [
        StraightRgba::from_be(0x000000ff),
        StraightRgba::from_be(0xbe2c21ff),
        StraightRgba::from_be(0x3fae3aff),
        StraightRgba::from_be(0xbe9a4aff),
        StraightRgba::from_be(0x204dbeff),
        StraightRgba::from_be(0xbb54beff),
        StraightRgba::from_be(0x00a7b2ff),
        StraightRgba::from_be(0xbebebeff),
        StraightRgba::from_be(0x808080ff),
        StraightRgba::from_be(0xff3e30ff),
        StraightRgba::from_be(0x58ea51ff),
        StraightRgba::from_be(0xffc944ff),
        StraightRgba::from_be(0x2f6affff),
        StraightRgba::from_be(0xfc74ffff),
        StraightRgba::from_be(0x00e1f0ff),
        StraightRgba::from_be(0xffffffff),
        StraightRgba::from_be(0x000000ff),
        StraightRgba::from_be(0xbebebeff),
    ]
}

/// Alpha `numerator / denominator` scaled to 0..=255, rounded down.
pub open spec fn alpha(numerator: u32, denominator: u32) -> u32 {
    ((255 * (numerator as int)) / (denominator as int)) as u32
}

/// The palette of a terminal framebuffer.
///
/// Whether a color is dark is decided from its Oklab lightness, which is
/// floating-point work left to the caller: the operations that depend on it
/// take the answer as an argument.
pub struct Framebuffer {
    indexed_colors: [StraightRgba; INDEXED_COLORS_COUNT],
    background_fill: StraightRgba,
    foreground_fill: StraightRgba,
    /// The colors `contrasted` picks from, as [for light input, for dark input].
    auto_colors: [StraightRgba; 2],
}

impl Framebuffer {
    pub closed spec fn palette(&self) -> Seq<StraightRgba> {
        self.indexed_colors@
    }

    pub closed spec fn auto(&self) -> Seq<StraightRgba> {
        self.auto_colors@
    }

    pub closed spec fn fills(&self) -> (StraightRgba, StraightRgba) {
        (self.background_fill, self.foreground_fill)
    }

    /// A framebuffer with the fallback palette.
    pub fn new() -> (r: Self)
        ensures
            r.palette().len() == INDEXED_COLORS_COUNT,
            r.auto().len() == 2,
            r.auto()[0] == r.palette()[0],
            r.auto()[1] == r.palette()[15],
            r.fills() == (r.palette()[16], r.palette()[17]),
    {
        let theme = default_theme();
        Framebuffer {
            indexed_colors: theme,
            background_fill: theme[16],
            foreground_fill: theme[17],
            auto_colors: [theme[0], theme[15]],
        }
    }

    /// Sets the palette. `black_is_dark` tells whether the palette's black
    /// is a dark color; when it is not (a light theme), `contrasted` swaps
    /// the roles of black and bright white.
    pub fn set_indexed_colors(
        &mut self,
        colors: [StraightRgba; INDEXED_COLORS_COUNT],
        black_is_dark: bool,
    )
        ensures
            final(self).palette() == colors@,
            final(self).fills() == (StraightRgba(0), StraightRgba(0)),
            final(self).auto().len() == 2,
            black_is_dark ==> final(self).auto()[0] == colors@[0] && final(self).auto()[1]
                == colors@[15],
            !black_is_dark ==> final(self).auto()[0] == colors@[15] && final(self).auto()[1]
                == colors@[0],
    {
        self.indexed_colors = colors;
        self.background_fill = StraightRgba::zero();
        self.foreground_fill = StraightRgba::zero();
        if black_is_dark {
            self.auto_colors = [colors[0], colors[15]];
        } else {
            self.auto_colors = [colors[15], colors[0]];
        }
    }

    /// A color of the palette.
    pub fn indexed(&self, index: IndexedColor) -> (r: StraightRgba)
        requires
            self.palette().len() == INDEXED_COLORS_COUNT,
        ensures
            r == self.palette()[index.idx()],
    {
        self.indexed_colors[index.index()]
    }

    /// A color of the palette with alpha `numerator / denominator` (in 1/255).
    pub fn indexed_alpha(&self, index: IndexedColor, numerator: u32, denominator: u32) -> (r:
        StraightRgba)
        requires
            self.palette().len() == INDEXED_COLORS_COUNT,
            denominator > 0,
            numerator <= denominator,
            255 * (numerator as int) <= u32::MAX,
        ensures
            r.0 == ((alpha(numerator, denominator) << 24u32) | (self.palette()[index.idx()].0
                & 0x00ffffffu32)),
    {
        let c: u32 = self.indexed_colors[index.index()].to_le();
        let ghost n = numerator as int;
        let ghost d = denominator as int;
        assert(255 * n <= 255 * d) by (nonlinear_arith)
            requires
                n <= d,
        ;
        assert((255 * n) / d <= 255) by (nonlinear_arith)
            requires
                n <= d,
                d > 0,
        ;
        let a: u32 = 255 * numerator / denominator;
        StraightRgba::from_le(a << 24 | (c & 0x00ffffff))
    }

    /// The palette color that contrasts with `color`: bright white for a dark
    /// color and black for a light one (swapped on a light theme).
    pub fn contrasted(&self, color: StraightRgba, color_is_dark: bool) -> (r: StraightRgba)
        requires
            self.auto().len() == 2,
        ensures
            r == self.auto()[if color_is_dark { 1int } else { 0int }],
    {
        self.auto_colors[if color_is_dark { 1 } else { 0 }]
    }
}

} // verus!
