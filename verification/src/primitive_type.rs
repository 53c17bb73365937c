//! The kinds of primitive a vertex run can be drawn as.

use vstd::prelude::*;

verus! {

/// The kinds of primitive a vertex run can be drawn as.
#[derive(Debug, Clone, Copy, PartialEq, Eq, Structural)]
pub enum PrimitiveType {
    Points,
    Lines,
    LineStrip,
    Triangles,
    TriangleStrip,
    TriangleFan,
    Quads,
}

impl PrimitiveType {
    /// How many vertices one primitive of this kind consists of. Only the
    /// fixed-size kinds have one; the strip and fan kinds do not.
    pub fn vertex_count(self) -> (r: usize)
        requires
            self == PrimitiveType::Points || self == PrimitiveType::Lines || self
                == PrimitiveType::Triangles || self == PrimitiveType::Quads,
        ensures
            self == PrimitiveType::Points ==> r == 1,
            self == PrimitiveType::Lines ==> r == 2,
            self == PrimitiveType::Triangles ==> r == 3,
            self == PrimitiveType::Quads ==> r == 4,
    {
        match self {
            Self::Points => 1,
            Self::Lines => 2,
            Self::Triangles => 3,
            _ => 4,
        }
    }
}

} // verus!
