//! Effects applied to the foreground before it is composited.

pub mod round;
pub mod shadow;
