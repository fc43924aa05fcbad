//! Colors and strokes.

use vstd::prelude::*;

verus! {

/// A color: red, green, blue and opacity, the first three already multiplied
/// by the opacity. This is the form in which `egui::Color32` holds a color, so
/// the two convert without loss.
#[derive(Clone, Copy, Debug, PartialEq, Eq, Structural)]
pub struct Color {
    /// Red, multiplied by the opacity.
    pub r: u8,
    /// Green, multiplied by the opacity.
    pub g: u8,
    /// Blue, multiplied by the opacity.
    pub b: u8,
    /// The opacity: 0 is transparent, 255 is opaque.
    pub a: u8,
}

/// The width and color of a line.
#[derive(Clone, Copy, Debug, PartialEq, Eq, Structural)]
pub struct Stroke {
    /// The width in screen units, of which a pixel holds 256.
    pub width: u32,
    /// The color.
    pub color: Color,
}

/// What the text that `egui::Color32::to_hex` gives for the color with the
/// components `r`, `g`, `b`, `a`.
pub uninterp spec fn color32_hex(r: u8, g: u8, b: u8, a: u8) -> Seq<char>;

/// What `egui::Color32::from_hex` gives for the text `hex`: the components of
/// the color, or `None` where it refuses the text.
pub uninterp spec fn color32_from_hex(hex: Seq<char>) -> Option<(u8, u8, u8, u8)>;

/// The lower-case hexadecimal digit of a number below 16.
pub open spec fn hex_digit(v: int) -> char {
    if v == 0 {
        '0'
    } else if v == 1 {
        '1'
    } else if v == 2 {
        '2'
    } else if v == 3 {
        '3'
    } else if v == 4 {
        '4'
    } else if v == 5 {
        '5'
    } else if v == 6 {
        '6'
    } else if v == 7 {
        '7'
    } else if v == 8 {
        '8'
    } else if v == 9 {
        '9'
    } else if v == 10 {
        'a'
    } else if v == 11 {
        'b'
    } else if v == 12 {
        'c'
    } else if v == 13 {
        'd'
    } else if v == 14 {
        'e'
    } else {
        'f'
    }
}

/// The two lower-case hexadecimal digits of a byte.
pub open spec fn hex_pair(v: u8) -> Seq<char> {
    seq![hex_digit(v as int / 16), hex_digit(v as int % 16)]
}

/// A hash sign and the hexadecimal digits of the four bytes, in order.
pub open spec fn hex_rgba(r: u8, g: u8, b: u8, a: u8) -> Seq<char> {
    seq!['#'] + hex_pair(r) + hex_pair(g) + hex_pair(b) + hex_pair(a)
}

/// A color component multiplied by the opacity `a`, as a fraction of 255,
/// rounded.
pub open spec fn premultiplied(v: u8, a: u8) -> u8 {
    ((v * a + 128 + (v * a + 128) / 256) / 256) as u8
}

/// The color with the separate components `r`, `g`, `b` and the opacity `a`.
pub open spec fn unmultiplied(r: u8, g: u8, b: u8, a: u8) -> Color {
    if a == 0 {
        Color { r: 0, g: 0, b: 0, a: 0 }
    } else if a == 255 {
        Color { r, g, b, a }
    } else {
        Color { r: premultiplied(r, a), g: premultiplied(g, a), b: premultiplied(b, a), a }
    }
}

/// The color that `egui::Color32::from_hex` reads from `hex`, if it reads one.
pub open spec fn hex_color(hex: Seq<char>) -> Option<Color> {
    match color32_from_hex(hex) {
        Some((r, g, b, a)) => Some(Color { r, g, b, a }),
        None => None,
    }
}

impl Color {
    /// Fully transparent.
    pub fn transparent() -> (c: Color)
        ensures
            c == (Color { r: 0, g: 0, b: 0, a: 0 }),
    {
        Color { r: 0, g: 0, b: 0, a: 0 }
    }

    /// Opaque black.
    pub fn black() -> (c: Color)
        ensures
            c == (Color { r: 0, g: 0, b: 0, a: 255 }),
    {
        Color { r: 0, g: 0, b: 0, a: 255 }
    }

    /// Opaque white.
    pub fn white() -> (c: Color)
        ensures
            c == (Color { r: 255, g: 255, b: 255, a: 255 }),
    {
        Color { r: 255, g: 255, b: 255, a: 255 }
    }

    /// Opaque red.
    pub fn red() -> (c: Color)
        ensures
            c == (Color { r: 255, g: 0, b: 0, a: 255 }),
    {
        Color { r: 255, g: 0, b: 0, a: 255 }
    }

    /// Opaque blue.
    pub fn blue() -> (c: Color)
        ensures
            c == (Color { r: 0, g: 0, b: 255, a: 255 }),
    {
        Color { r: 0, g: 0, b: 255, a: 255 }
    }

    /// An opaque color.
    pub fn from_rgb(r: u8, g: u8, b: u8) -> (c: Color)
        ensures
            c == (Color { r, g, b, a: 255 }),
    {
        Color { r, g, b, a: 255 }
    }

    /// A color from components that are already multiplied by the opacity.
    pub fn from_rgba_premultiplied(r: u8, g: u8, b: u8, a: u8) -> (c: Color)
        ensures
            c == (Color { r, g, b, a }),
    {
        Color { r, g, b, a }
    }

    /// One component multiplied by the opacity `a`, as a fraction of 255,
    /// rounded.
    fn premultiply(v: u8, a: u8) -> (r: u8)
        ensures
            r == premultiplied(v, a),
    {
        assert(0 <= v * a <= 255 * 255) by (nonlinear_arith)
            requires
                0 <= v <= 255,
                0 <= a <= 255,
        ;
        let n: u32 = v as u32 * a as u32 + 128;
        ((n + n / 256) / 256) as u8
    }

    /// A color from separate components and opacity: opacity 0 gives the
    /// transparent color, opacity 255 leaves the components as they are, and
    /// any other opacity multiplies each component by it. This is how
    /// `egui::Color32::from_rgba_unmultiplied` multiplies them.
    pub fn from_rgba_unmultiplied(r: u8, g: u8, b: u8, a: u8) -> (c: Color)
        ensures
            c == unmultiplied(r, g, b, a),
    {
        if a == 0 {
            Color { r: 0, g: 0, b: 0, a: 0 }
        } else if a == 255 {
            Color { r, g, b, a }
        } else {
            Color {
                r: Color::premultiply(r, a),
                g: Color::premultiply(g, a),
                b: Color::premultiply(b, a),
                a,
            }
        }
    }

    /// The color as a hash sign and eight hexadecimal digits.
    ///
    /// Calls `egui::Color32::to_hex`. Believed of it: the text depends on the
    /// color alone, and for an opaque color and for a color of opacity 0 it is
    /// the hash sign and the lower-case digits of the four components. For the
    /// other colors `egui` first divides the components by the opacity, which is
    /// not spelled out here.
    #[verifier::external_body]
    pub(crate) fn hex(&self) -> (s: String)
        ensures
            s@ == color32_hex(self.r, self.g, self.b, self.a),
            self.a == 0 || self.a == 255 ==> s@ == hex_rgba(self.r, self.g, self.b, self.a),
    {
        egui::Color32::from_rgba_premultiplied(self.r, self.g, self.b, self.a).to_hex()
    }

    /// Reads a color from a hash sign and hexadecimal digits.
    ///
    /// Calls `egui::Color32::from_hex`. Believed of it: the result depends on the
    /// text alone, and a hash sign with the lower-case digits of four bytes gives
    /// the color that `from_rgba_unmultiplied` makes of those bytes.
    #[verifier::external_body]
    pub(crate) fn parse_hex(hex: &str) -> (c: Option<Color>)
        ensures
            c == match color32_from_hex(hex@) {
                Some((r, g, b, a)) => Some(Color { r, g, b, a }),
                None => None,
            },
            forall|r: u8, g: u8, b: u8, a: u8|
                hex@ == hex_rgba(r, g, b, a) ==> c == Some(unmultiplied(r, g, b, a)),
    {
        match egui::Color32::from_hex(hex) {
            Ok(c) => Some(Color { r: c.r(), g: c.g(), b: c.b(), a: c.a() }),
            Err(_) => None,
        }
    }

    /// The color as a hash sign and eight hexadecimal digits, as `egui` writes
    /// it.
    pub fn to_hex(&self) -> (s: String)
        ensures
            s@ == color32_hex(self.r, self.g, self.b, self.a),
            self.a == 0 || self.a == 255 ==> s@ == hex_rgba(self.r, self.g, self.b, self.a),
    {
        self.hex()
    }

    /// Reads a color from hexadecimal text, as `egui` reads it; `None` where it
    /// refuses the text.
    pub fn from_hex(hex: &str) -> (c: Option<Color>)
        ensures
            c == hex_color(hex@),
            forall|r: u8, g: u8, b: u8, a: u8|
                hex@ == hex_rgba(r, g, b, a) ==> c == Some(unmultiplied(r, g, b, a)),
    {
        Color::parse_hex(hex)
    }
}

impl Color {
    /// The text of the color, in the notation of `color32_hex`.
    pub open spec fn spec_hex(self) -> Seq<char> {
        color32_hex(self.r, self.g, self.b, self.a)
    }
}

impl Stroke {
    /// A stroke of the given width and color.
    pub fn new(width: u32, color: Color) -> (s: Stroke)
        ensures
            s == (Stroke { width, color }),
    {
        Stroke { width, color }
    }
}

} // verus!
