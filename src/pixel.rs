use vstd::prelude::*;

verus! {

/// One RGBA pixel, eight bits per channel.
///
/// An alpha of zero marks a pixel with no content; any other alpha marks
/// opaque content.
#[derive(Clone, Copy, PartialEq, Eq, Structural, Debug)]
pub struct Rgba8 {
    pub red: u8,
    pub green: u8,
    pub blue: u8,
    pub alpha: u8,
}

/// The value every pixel of a fresh canvas starts with: transparent black.
pub open spec fn transparent() -> Rgba8 {
    Rgba8 { red: 0, green: 0, blue: 0, alpha: 0 }
}

impl Rgba8 {
    /// Builds a pixel from its four channels.
    pub fn new(red: u8, green: u8, blue: u8, alpha: u8) -> (r: Rgba8)
        ensures
            r == (Rgba8 { red, green, blue, alpha }),
    {
        Rgba8 { red, green, blue, alpha }
    }

    /// Whether the pixel carries content, that is, has a non-zero alpha.
    pub fn is_opaque(&self) -> (r: bool)
        ensures
            r == (self.alpha != 0),
    {
        self.alpha != 0
    }
}

} // verus!
