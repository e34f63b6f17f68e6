use vstd::prelude::*;

verus! {

/// The materials of a cross-section; each one is drawn in its own color.
#[derive(Clone, Copy, Debug, PartialEq, Eq, Structural)]
pub enum Color {
    Air,
    Substrate,
    PositiveConductor,
    NegativeConductor,
    GroundConductor,
    SolderMask,
}

/// The 24-bit RGB triple of each material.
pub open spec fn palette(c: Color) -> (u8, u8, u8) {
    match c {
        Color::Air => (255, 202, 202),
        Color::Substrate => (223, 247, 136),
        Color::PositiveConductor => (255, 0, 0),
        Color::NegativeConductor => (0, 0, 255),
        Color::GroundConductor => (0, 255, 0),
        Color::SolderMask => (25, 186, 246),
    }
}

impl Color {
    /// The RGB triple that encodes this material in the output image.
    pub fn rgb(self) -> (r: (u8, u8, u8))
        ensures
            r == palette(self),
    {
        match self {
            Color::Air => (255, 202, 202),
            Color::Substrate => (223, 247, 136),
            Color::PositiveConductor => (255, 0, 0),
            Color::NegativeConductor => (0, 0, 255),
            Color::GroundConductor => (0, 255, 0),
            Color::SolderMask => (25, 186, 246),
        }
    }

    /// The material that a triple encodes, if it is one of the six.
    pub fn from_rgb(t: (u8, u8, u8)) -> (r: Option<Color>)
        ensures
            r matches Some(c) ==> palette(c) == t,
            r is None ==> forall|c: Color| palette(c) != t,
    {
        if t.0 == 255 && t.1 == 202 && t.2 == 202 {
            Some(Color::Air)
        } else if t.0 == 223 && t.1 == 247 && t.2 == 136 {
            Some(Color::Substrate)
        } else if t.0 == 255 && t.1 == 0 && t.2 == 0 {
            Some(Color::PositiveConductor)
        } else if t.0 == 0 && t.1 == 0 && t.2 == 255 {
            Some(Color::NegativeConductor)
        } else if t.0 == 0 && t.1 == 255 && t.2 == 0 {
            Some(Color::GroundConductor)
        } else if t.0 == 25 && t.1 == 186 && t.2 == 246 {
            Some(Color::SolderMask)
        } else {
            None
        }
    }
}

/// Encoding is exact: every material has one of the six triples, no two
/// materials share a triple, and decoding a material's triple gives it back.
pub proof fn lemma_palette_round_trip(c: Color, d: Color)
    ensures
        palette(c) == (255u8, 202u8, 202u8) || palette(c) == (223u8, 247u8, 136u8)
            || palette(c) == (255u8, 0u8, 0u8) || palette(c) == (0u8, 0u8, 255u8)
            || palette(c) == (0u8, 255u8, 0u8) || palette(c) == (25u8, 186u8, 246u8),
        palette(c) == palette(d) ==> c == d,
{
}

} // verus!
