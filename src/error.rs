use vstd::prelude::*;

verus! {

/// Why a compositing operation refused its inputs.
///
/// Every check is made before any pixel is written, so a refused operation
/// produces no canvas at all.
#[derive(Clone, Copy, PartialEq, Eq, Structural, Debug)]
pub enum CompositeError {
    /// The overlay holds fewer frames than were asked for.
    Capacity,
    /// A frame does not fit inside one tile of the base, or inside the
    /// overlay, or the base has no rows to tile with.
    Geometry,
    /// The canvas would be larger than a pixel buffer can be.
    TooLarge,
}

} // verus!
