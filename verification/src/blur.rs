//! The contract of the Gaussian blur that the caller supplies.
//!
//! The blur is handed in as a function from a raster and a radius to the
//! blurred raster. The radius is counted in half pixels, so that the half
//! pixel radii of shadows stay whole numbers.

use vstd::prelude::*;
use crate::raster::Raster;

verus! {

/// What is asked of a blur: it accepts every raster and every radius, and
/// it gives back a raster of the same extent and layout.
pub open spec fn blur_ok<F: Fn(Raster, u64) -> Raster>(blur: &F) -> bool {
    &&& forall|layer: Raster, halves: u64| layer.wf() ==> #[trigger] blur.requires((layer, halves))
    &&& forall|layer: Raster, halves: u64, out: Raster|
        layer.wf() && #[trigger] blur.ensures((layer, halves), out) ==> {
            &&& out.wf()
            &&& out@.width == layer@.width
            &&& out@.height == layer@.height
            &&& out@.layout == layer@.layout
        }
}

/// Whether `soft` is `flat` blurred by `halves` half pixels: `flat` itself
/// for a radius of 0, and otherwise what `blur` gave.
pub open spec fn is_softened<F: Fn(Raster, u64) -> Raster>(
    soft: Raster,
    flat: Raster,
    halves: int,
    blur: &F,
) -> bool {
    &&& soft.wf()
    &&& soft@.width == flat@.width
    &&& soft@.height == flat@.height
    &&& soft@.layout == flat@.layout
    &&& halves == 0 ==> soft@ == flat@
    &&& halves != 0 ==> blur.ensures((flat, halves as u64), soft)
}

/// Blurs `layer` by a radius of `halves` half pixels. A radius of 0 is no
/// blur at all: the layer comes back as it is and `blur` is not called.
pub fn soften<F: Fn(Raster, u64) -> Raster>(layer: Raster, halves: u64, blur: &F) -> (out: Raster)
    requires
        layer.wf(),
        blur_ok(blur),
    ensures
        is_softened(out, layer, halves as int, blur),
{
    if halves == 0 {
        layer
    } else {
        blur(layer, halves)
    }
}

} // verus!
