//! Colours, fonts and marker shapes of the charts.

use vstd::prelude::*;

verus! {

/// An opaque RGB colour.
#[derive(Debug, Clone, Copy, PartialEq, Eq, Structural)]
pub struct Color(pub u8, pub u8, pub u8);

impl Color {
    /// Text and axes.
    pub fn font_primary() -> (r: Color)
        ensures
            r == Color(0xf9, 0xf9, 0xf9),
    {
        Color(0xf9, 0xf9, 0xf9)
    }

    /// The main background.
    pub fn bg_primary() -> (r: Color)
        ensures
            r == Color(0x4e, 0x2f, 0x63),
    {
        Color(0x4e, 0x2f, 0x63)
    }

    /// The second background.
    pub fn bg_secondary() -> (r: Color)
        ensures
            r == Color(0x71, 0x50, 0x7c),
    {
        Color(0x71, 0x50, 0x7c)
    }

    /// Pink accent.
    pub fn accent_pink() -> (r: Color)
        ensures
            r == Color(0xed, 0x0d, 0x7f),
    {
        Color(0xed, 0x0d, 0x7f)
    }

    /// Blue accent.
    pub fn accent_blue() -> (r: Color)
        ensures
            r == Color(0x42, 0xbc, 0xec),
    {
        Color(0x42, 0xbc, 0xec)
    }

    /// Yellow accent.
    pub fn accent_yellow() -> (r: Color)
        ensures
            r == Color(0xfa, 0xe6, 0x16),
    {
        Color(0xfa, 0xe6, 0x16)
    }
}

/// The typeface, size and colour of a text.
#[derive(Debug)]
pub struct Font {
    name: &'static str,
    size: u32,
    color: Color,
}

impl Font {
    pub closed spec fn spec_name(&self) -> Seq<char> {
        self.name@
    }

    pub closed spec fn spec_size(&self) -> u32 {
        self.size
    }

    pub closed spec fn spec_color(&self) -> Color {
        self.color
    }

    /// The default typeface and colour at the given size.
    pub fn new(size: u32) -> (r: Font)
        ensures
            r.spec_name() == "Rubik"@,
            r.spec_size() == size,
            r.spec_color() == Color(0xf9, 0xf9, 0xf9),
    {
        Font { name: "Rubik", size, color: Color::font_primary() }
    }

    pub fn name(&self) -> (r: &'static str)
        ensures
            r@ == self.spec_name(),
    {
        self.name
    }

    pub fn size(&self) -> (r: u32)
        ensures
            r == self.spec_size(),
    {
        self.size
    }

    pub fn color(&self) -> (r: Color)
        ensures
            r == self.spec_color(),
    {
        self.color
    }
}

impl Default for Font {
    fn default() -> (r: Font)
        ensures
            r.spec_name() == "Rubik"@,
            r.spec_size() == 24,
            r.spec_color() == Color(0xf9, 0xf9, 0xf9),
    {
        Font::new(24)
    }
}

/// The shape of a data point's marker.
#[derive(Debug, Clone, Copy, PartialEq, Eq, Structural)]
pub enum MarkerKind {
    Triangle,
    Circle,
    Cross,
}

impl MarkerKind {
    /// The number of shapes.
    pub const COUNT: usize = 3;

    /// The shape of the `n`-th group of series: the shapes in turn.
    pub fn from_index(n: usize) -> (r: MarkerKind)
        ensures
            n % 3 == 0 ==> r == MarkerKind::Triangle,
            n % 3 == 1 ==> r == MarkerKind::Circle,
            n % 3 == 2 ==> r == MarkerKind::Cross,
    {
        let k = n % MarkerKind::COUNT;
        if k == 0 {
            MarkerKind::Triangle
        } else if k == 1 {
            MarkerKind::Circle
        } else {
            MarkerKind::Cross
        }
    }
}

} // verus!
