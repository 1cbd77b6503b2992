//! A renderer for batches of circles, rounded rectangles and glyphs.
//!
//! Every primitive is one record of the same layout. A record is expanded to a
//! quad, and each pixel of the quad is shaded from a signed distance: computed
//! for circles and rounded rectangles, sampled from a multi-channel distance
//! field for glyphs. All arithmetic is fixed-point, and every function states
//! its result exactly.

pub mod atlas;
pub mod batch;
pub mod coords;
pub mod expansion;
pub mod fixed;
pub mod record;
pub mod render;
pub mod schedule;
pub mod sdf;
