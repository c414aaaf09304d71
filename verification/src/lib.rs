//! Geometry and interaction logic for an interactive globe drawn on a flat
//! canvas: coordinate transforms between pixel space and the unit sphere,
//! spherical/Cartesian conversions, a drag-to-rotate state machine, and
//! per-segment front/back classification of coastline polylines.
//!
//! All real-valued quantities are held in fixed-point form: lengths as
//! integers scaled by [`fixed::SCALE`], angles as whole degrees.

pub mod fixed;
pub mod render;
pub mod rotation;
pub mod spherical;
pub mod transform;
pub mod trig;
