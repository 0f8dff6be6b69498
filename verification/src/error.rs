//! Why a job is rejected before any pixel is touched.

use vstd::prelude::*;

verus! {

/// A configuration that cannot be rendered.
#[derive(Clone, Copy, Debug, PartialEq, Eq, Structural)]
pub enum InvalidConfiguration {
    /// The padding fraction is one half or more, or its denominator is zero.
    Padding,
    /// A target or content dimension is zero.
    ZeroDimension,
    /// The corner radius is larger than half the smaller content dimension.
    Radius,
    /// A canvas, layer or intermediate image would be too large to address.
    TooLarge,
}

} // verus!
