//! Expansion of one primitive into the four corners of its quad.
//!
//! The record is placed in clip space at the image of its position. The quad
//! reaches one half-size to either side on both axes, where the half-size is
//! `dimensions / resolution`. The corners come in a fixed order with fixed
//! texture coordinates, so that they form a triangle strip as they stand:
//! bottom left `(0, 1)`, bottom right `(1, 1)`, top left `(0, 0)`, top right
//! `(1, 0)`. Every other attribute of the record is copied to all four.

use crate::coords::{ndc_size, ndc_size_spec, ndc_x_spec, ndc_y_spec, to_ndc, Resolution};
use crate::fixed::ONE;
use crate::record::PrimitiveRecord;
use vstd::prelude::*;

verus! {

/// One corner of the quad of a primitive.
#[derive(Clone, Copy, Debug, PartialEq, Eq)]
pub struct QuadVertex {
    /// Position in clip space, fixed-point.
    pub position: [i64; 2],
    /// Texture coordinate local to the quad, fixed-point.
    pub uv: [u32; 2],
    /// Extents of the primitive in pixels.
    pub dimensions: [u16; 2],
    /// Fill colour. May be interpolated across the quad.
    pub inner_colour: [u32; 4],
    /// Stroke colour. May be interpolated across the quad.
    pub outer_colour: [u32; 4],
    /// Kind and payload. Flat: never interpolated across the quad.
    pub kind_and_payload: [u16; 2],
    /// Stroke width and reserved slots.
    pub extra_1: [u32; 4],
    /// Corner radii.
    pub extra_2: [u32; 4],
}

/// The vertex carries the attributes of the record unchanged.
pub open spec fn carries(vertex: QuadVertex, record: PrimitiveRecord) -> bool {
    &&& vertex.dimensions == record.dimensions
    &&& vertex.inner_colour == record.inner_colour
    &&& vertex.outer_colour == record.outer_colour
    &&& vertex.kind_and_payload == record.kind_and_payload
    &&& vertex.extra_1 == record.extra_1
    &&& vertex.extra_2 == record.extra_2
}

/// The vertex is the corner of the quad of `record` on the side `(side_x,
/// side_y)` of its centre, each `-1` or `1`, with texture coordinate `(u, v)`.
pub open spec fn is_corner(
    vertex: QuadVertex,
    record: PrimitiveRecord,
    width: int,
    height: int,
    side_x: int,
    side_y: int,
    u: int,
    v: int,
) -> bool {
    &&& vertex.position[0] == ndc_x_spec(width, record.position[0] as int) + side_x
        * ndc_size_spec(width, record.dimensions[0] as int)
    &&& vertex.position[1] == ndc_y_spec(height, record.position[1] as int) + side_y
        * ndc_size_spec(height, record.dimensions[1] as int)
    &&& vertex.uv[0] == u
    &&& vertex.uv[1] == v
    &&& carries(vertex, record)
}

/// The four corners of the quad of `record`, in strip order.
pub open spec fn is_quad_of(quad: [QuadVertex; 4], record: PrimitiveRecord, width: int, height: int) -> bool {
    &&& is_corner(quad[0], record, width, height, -1, -1, 0, ONE as int)
    &&& is_corner(quad[1], record, width, height, 1, -1, ONE as int, ONE as int)
    &&& is_corner(quad[2], record, width, height, -1, 1, 0, 0)
    &&& is_corner(quad[3], record, width, height, 1, 1, ONE as int, 0)
}

/// One corner of a quad: the centre moved by the half-size to the given side.
fn corner(
    record: &PrimitiveRecord,
    centre: [i64; 2],
    size: [i64; 2],
    right: bool,
    up: bool,
    u: u32,
    v: u32,
) -> (vertex: QuadVertex)
    requires
        -(ONE as int) <= centre[0] <= 0x100_0000_0000,
        -0x100_0000_0000 <= centre[1] <= ONE,
        0 <= size[0] <= 0x100_0000_0000,
        0 <= size[1] <= 0x100_0000_0000,
    ensures
        vertex.position[0] == (if right { centre[0] + size[0] } else { centre[0] - size[0] }),
        vertex.position[1] == (if up { centre[1] + size[1] } else { centre[1] - size[1] }),
        vertex.uv[0] == u,
        vertex.uv[1] == v,
        carries(vertex, *record),
{
    let x: i64 = if right { centre[0] + size[0] } else { centre[0] - size[0] };
    let y: i64 = if up { centre[1] + size[1] } else { centre[1] - size[1] };
    QuadVertex {
        position: [x, y],
        uv: [u, v],
        dimensions: record.dimensions,
        inner_colour: record.inner_colour,
        outer_colour: record.outer_colour,
        kind_and_payload: record.kind_and_payload,
        extra_1: record.extra_1,
        extra_2: record.extra_2,
    }
}

/// Turns one record into the four corners of its quad.
pub fn expand(record: &PrimitiveRecord, resolution: &Resolution) -> (quad: [QuadVertex; 4])
    ensures
        is_quad_of(quad, *record, resolution.width_spec(), resolution.height_spec()),
{
    let centre: [i64; 2] = to_ndc(resolution, record.position);
    let size: [i64; 2] = ndc_size(resolution, record.dimensions);
    [
        corner(record, centre, size, false, false, 0, ONE),
        corner(record, centre, size, true, false, ONE, ONE),
        corner(record, centre, size, false, true, 0, 0),
        corner(record, centre, size, true, true, ONE, 0),
    ]
}

} // verus!
