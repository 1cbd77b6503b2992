//! The uniform per-primitive record and its builders.
//!
//! One record describes one drawable shape. It is a tagged union laid out as
//! parallel fixed-width numeric fields: the first component of
//! `kind_and_payload` says which shape the record is, and thereby which of the
//! other fields carry meaning. Fractional fields are fixed-point (see
//! [`crate::fixed`]).

use vstd::prelude::*;

verus! {

/// Kind code of a filled and stroked circle.
pub const KIND_CIRCLE: u16 = 0;

/// Kind code of a filled and stroked rounded rectangle.
pub const KIND_ROUNDED_RECT: u16 = 1;

/// Kind code of a glyph sampled from the atlas.
pub const KIND_GLYPH: u16 = 2;

/// The shapes a record can encode.
#[derive(Clone, Copy, Debug, PartialEq, Eq, Structural)]
pub enum ShapeKind {
    Circle,
    RoundedRect,
    Glyph,
}

/// A shape together with the parameters that belong to it.
#[derive(Clone, Copy, Debug, PartialEq, Eq)]
pub enum Shape {
    /// A circle with a stroke of the given width in pixels, fixed-point.
    Circle { stroke_width: u32 },
    /// A rectangle with a stroke and one radius per corner, each a fraction of the quad.
    RoundedRect { stroke_width: u32, corner_radii: [u32; 4] },
    /// The glyph in the given layer of the atlas.
    Glyph { glyph_index: u16 },
}

/// The shape that a kind code stands for, if any.
pub open spec fn kind_of_code(code: u16) -> Option<ShapeKind> {
    if code == KIND_CIRCLE {
        Some(ShapeKind::Circle)
    } else if code == KIND_ROUNDED_RECT {
        Some(ShapeKind::RoundedRect)
    } else if code == KIND_GLYPH {
        Some(ShapeKind::Glyph)
    } else {
        None
    }
}

/// `value + delta`, held within the range of an unsigned 16-bit dimension.
pub open spec fn saturating_offset(value: int, delta: int) -> int {
    if value + delta < 0 {
        0
    } else if value + delta > u16::MAX {
        u16::MAX as int
    } else {
        value + delta
    }
}

/// `after` is `before` with both dimensions moved by `delta` pixels and held
/// within range, and with every other field as it was.
pub open spec fn is_expansion_of(after: PrimitiveRecord, before: PrimitiveRecord, delta: int) -> bool {
    &&& after.dimensions[0] == saturating_offset(before.dimensions[0] as int, delta)
    &&& after.dimensions[1] == saturating_offset(before.dimensions[1] as int, delta)
    &&& after.position == before.position
    &&& after.inner_colour == before.inner_colour
    &&& after.outer_colour == before.outer_colour
    &&& after.kind_and_payload == before.kind_and_payload
    &&& after.extra_1 == before.extra_1
    &&& after.extra_2 == before.extra_2
}

/// One drawable shape and its visual parameters.
#[derive(Clone, Copy, Debug, PartialEq, Eq)]
pub struct PrimitiveRecord {
    /// Centre of the shape in pixels, origin at the top left.
    pub position: [u16; 2],
    /// Extents in pixels. A circle holds its radius in both components.
    pub dimensions: [u16; 2],
    /// Fill colour, RGBA, fixed-point.
    pub inner_colour: [u32; 4],
    /// Stroke colour, RGBA, fixed-point.
    pub outer_colour: [u32; 4],
    /// Kind code, then the glyph layer index of a glyph.
    pub kind_and_payload: [u16; 2],
    /// Stroke width in pixels, fixed-point, then three reserved slots.
    pub extra_1: [u32; 4],
    /// Corner radii of a rounded rectangle as fractions of the quad, fixed-point.
    pub extra_2: [u32; 4],
}

impl PrimitiveRecord {
    /// The record with exactly the given fields.
    pub open spec fn with_fields(
        position: [u16; 2],
        dimensions: [u16; 2],
        inner_colour: [u32; 4],
        outer_colour: [u32; 4],
        kind_and_payload: [u16; 2],
        extra_1: [u32; 4],
        extra_2: [u32; 4],
    ) -> PrimitiveRecord {
        PrimitiveRecord {
            position,
            dimensions,
            inner_colour,
            outer_colour,
            kind_and_payload,
            extra_1,
            extra_2,
        }
    }

    /// The shape this record encodes, or `None` for an unknown kind code.
    pub open spec fn kind_spec(&self) -> Option<ShapeKind> {
        kind_of_code(self.kind_and_payload[0])
    }

    /// The shape this record encodes with its parameters, read from the
    /// fields that carry meaning for its kind.
    pub open spec fn shape_spec(&self) -> Option<Shape> {
        match self.kind_spec() {
            Some(ShapeKind::Circle) => Some(Shape::Circle { stroke_width: self.extra_1[0] }),
            Some(ShapeKind::RoundedRect) => Some(
                Shape::RoundedRect { stroke_width: self.extra_1[0], corner_radii: self.extra_2 },
            ),
            Some(ShapeKind::Glyph) => Some(Shape::Glyph { glyph_index: self.kind_and_payload[1] }),
            None => None,
        }
    }

    /// A circle: kind `0`, the radius in both dimensions, the stroke width in
    /// the first slot of `extra_1`, everything else zero.
    pub open spec fn is_circle_of(
        &self,
        position: [u16; 2],
        radius: u16,
        inner_colour: [u32; 4],
        outer_colour: [u32; 4],
        stroke_width: u32,
    ) -> bool {
        &&& self.position == position
        &&& self.dimensions@ =~= seq![radius, radius]
        &&& self.inner_colour == inner_colour
        &&& self.outer_colour == outer_colour
        &&& self.kind_and_payload@ =~= seq![KIND_CIRCLE, 0u16]
        &&& self.extra_1@ =~= seq![stroke_width, 0u32, 0u32, 0u32]
        &&& self.extra_2@ =~= seq![0u32, 0u32, 0u32, 0u32]
    }

    /// A rounded rectangle: kind `1`, the stroke width in the first slot of
    /// `extra_1`, the four corner radii in `extra_2`.
    pub open spec fn is_rectangle_of(
        &self,
        position: [u16; 2],
        dimensions: [u16; 2],
        inner_colour: [u32; 4],
        outer_colour: [u32; 4],
        stroke_width: u32,
        corner_radii: [u32; 4],
    ) -> bool {
        &&& self.position == position
        &&& self.dimensions == dimensions
        &&& self.inner_colour == inner_colour
        &&& self.outer_colour == outer_colour
        &&& self.kind_and_payload@ =~= seq![KIND_ROUNDED_RECT, 0u16]
        &&& self.extra_1@ =~= seq![stroke_width, 0u32, 0u32, 0u32]
        &&& self.extra_2 == corner_radii
    }

    /// A glyph: kind `2`, the glyph index as payload, one colour for both
    /// fill and stroke, no stroke width and no corner radii.
    pub open spec fn is_text_of(
        &self,
        position: [u16; 2],
        dimensions: [u16; 2],
        colour: [u32; 4],
        glyph_index: u16,
    ) -> bool {
        &&& self.position == position
        &&& self.dimensions == dimensions
        &&& self.inner_colour == colour
        &&& self.outer_colour == colour
        &&& self.kind_and_payload@ =~= seq![KIND_GLYPH, glyph_index]
        &&& self.extra_1@ =~= seq![0u32, 0u32, 0u32, 0u32]
        &&& self.extra_2@ =~= seq![0u32, 0u32, 0u32, 0u32]
    }

    /// Builds a record from all of its fields.
    pub fn with_position_size_colours_identification_and_data(
        position: [u16; 2],
        dimensions: [u16; 2],
        inner_colour: [u32; 4],
        outer_colour: [u32; 4],
        kind_and_payload: [u16; 2],
        extra_1: [u32; 4],
        extra_2: [u32; 4],
    ) -> (r: Self)
        ensures
            r == Self::with_fields(
                position,
                dimensions,
                inner_colour,
                outer_colour,
                kind_and_payload,
                extra_1,
                extra_2,
            ),
    {
        PrimitiveRecord {
            position,
            dimensions,
            inner_colour,
            outer_colour,
            kind_and_payload,
            extra_1,
            extra_2,
        }
    }

    /// A circle of the given radius around `position`, filled with
    /// `inner_colour` and stroked with `outer_colour`.
    pub fn circle(
        position: [u16; 2],
        radius: u16,
        inner_colour: [u32; 4],
        outer_colour: [u32; 4],
        stroke_width: u32,
    ) -> (r: Self)
        ensures
            r.is_circle_of(position, radius, inner_colour, outer_colour, stroke_width),
            r.kind_spec() == Some(ShapeKind::Circle),
            r.shape_spec() == Some(Shape::Circle { stroke_width }),
    {
        Self::with_position_size_colours_identification_and_data(
            position,
            [radius, radius],
            inner_colour,
            outer_colour,
            [KIND_CIRCLE, 0],
            [stroke_width, 0, 0, 0],
            [0, 0, 0, 0],
        )
    }

    /// A rounded rectangle with one radius per corner.
    pub fn rectangle(
        position: [u16; 2],
        dimensions: [u16; 2],
        inner_colour: [u32; 4],
        outer_colour: [u32; 4],
        stroke_width: u32,
        corner_radii: [u32; 4],
    ) -> (r: Self)
        ensures
            r.is_rectangle_of(
                position,
                dimensions,
                inner_colour,
                outer_colour,
                stroke_width,
                corner_radii,
            ),
            r.kind_spec() == Some(ShapeKind::RoundedRect),
            r.shape_spec() == Some(Shape::RoundedRect { stroke_width, corner_radii }),
    {
        Self::with_position_size_colours_identification_and_data(
            position,
            dimensions,
            inner_colour,
            outer_colour,
            [KIND_ROUNDED_RECT, 0],
            [stroke_width, 0, 0, 0],
            corner_radii,
        )
    }

    /// One glyph of the atlas, drawn in a single colour.
    pub fn text(position: [u16; 2], dimensions: [u16; 2], colour: [u32; 4], glyph_index: u16) -> (r:
        Self)
        ensures
            r.is_text_of(position, dimensions, colour, glyph_index),
            r.kind_spec() == Some(ShapeKind::Glyph),
            r.shape_spec() == Some(Shape::Glyph { glyph_index }),
    {
        Self::with_position_size_colours_identification_and_data(
            position,
            dimensions,
            colour,
            colour,
            [KIND_GLYPH, glyph_index],
            [0, 0, 0, 0],
            [0, 0, 0, 0],
        )
    }

    /// The shape this record encodes, or `None` for an unknown kind code.
    pub fn kind(&self) -> (k: Option<ShapeKind>)
        ensures
            k == self.kind_spec(),
    {
        let code: u16 = self.kind_and_payload[0];
        if code == KIND_CIRCLE {
            Some(ShapeKind::Circle)
        } else if code == KIND_ROUNDED_RECT {
            Some(ShapeKind::RoundedRect)
        } else if code == KIND_GLYPH {
            Some(ShapeKind::Glyph)
        } else {
            None
        }
    }

    /// The shape this record encodes with its parameters, or `None` for an
    /// unknown kind code.
    pub fn shape(&self) -> (s: Option<Shape>)
        ensures
            s == self.shape_spec(),
    {
        match self.kind() {
            Some(ShapeKind::Circle) => Some(Shape::Circle { stroke_width: self.extra_1[0] }),
            Some(ShapeKind::RoundedRect) => Some(
                Shape::RoundedRect { stroke_width: self.extra_1[0], corner_radii: self.extra_2 },
            ),
            Some(ShapeKind::Glyph) => Some(Shape::Glyph { glyph_index: self.kind_and_payload[1] }),
            None => None,
        }
    }

    /// The atlas layer a glyph record refers to.
    pub fn glyph_index(&self) -> (i: u16)
        ensures
            i == self.kind_and_payload[1],
    {
        self.kind_and_payload[1]
    }

    /// The stroke width in pixels, fixed-point.
    pub fn stroke_width(&self) -> (w: u32)
        ensures
            w == self.extra_1[0],
    {
        self.extra_1[0]
    }

    /// The per-corner radii of a rounded rectangle.
    pub fn corner_radii(&self) -> (r: [u32; 4])
        ensures
            r == self.extra_2,
    {
        self.extra_2
    }

    /// Grows both dimensions by `delta` pixels, or shrinks them where `delta`
    /// is negative.
    ///
    /// Dimensions saturate: a shrink below zero leaves `0`, a growth beyond
    /// the largest 16-bit value leaves that value. They never wrap around.
    pub fn expand_dimensions(&mut self, delta: i16)
        ensures
            is_expansion_of(*final(self), *old(self), delta as int),
    {
        let w: u16 = offset_dimension(self.dimensions[0], delta);
        let h: u16 = offset_dimension(self.dimensions[1], delta);
        self.dimensions = [w, h];
    }
}

/// `value + delta`, saturating at both ends of the 16-bit range.
pub fn offset_dimension(value: u16, delta: i16) -> (r: u16)
    ensures
        r == saturating_offset(value as int, delta as int),
{
    let sum: i32 = value as i32 + delta as i32;
    if sum < 0 {
        0
    } else if sum > 65535 {
        65535
    } else {
        sum as u16
    }
}

} // verus!
