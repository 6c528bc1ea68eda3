//! Failures of the glyph cache of the text renderer.
use vstd::prelude::*;

verus! {

/// Why a glyph could not be put into the atlas.
#[derive(Clone, Copy, Debug, PartialEq, Eq, Structural)]
pub enum CacheGlyphError {
    /// The glyph has no image to rasterise.
    NoGlyphImage,
    /// The atlas texture has no room left for the glyph.
    OutOfSpace,
}

impl CacheGlyphError {
    /// A sentence describing the failure.
    pub fn message(&self) -> (r: &'static str)
        ensures
            *self == CacheGlyphError::NoGlyphImage ==> r@ == "Unable to get image from proved glyph."@,
            *self == CacheGlyphError::OutOfSpace ==> r@
                == "Atlas texture is not big enough to store new glyphs"@,
    {
        match self {
            CacheGlyphError::NoGlyphImage => "Unable to get image from proved glyph.",
            CacheGlyphError::OutOfSpace => "Atlas texture is not big enough to store new glyphs",
        }
    }
}

} // verus!
