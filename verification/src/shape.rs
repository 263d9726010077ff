//! Shapes: converters from data series to renderable path primitives.

pub mod arc;
pub mod line;
pub mod pie;
