use vstd::prelude::*;

verus! {

/// The shapes a renderable can be drawn as.
#[derive(Debug, Clone, Copy, PartialEq, Eq)]
pub enum PrimitiveType {
    Rectangle,
    Circle,
    Line,
}

/// How the vertices of a primitive are assembled.
#[derive(Debug, Clone, Copy, PartialEq, Eq)]
pub enum PrimitiveTopology {
    TriangleList,
    LineList,
}

impl PrimitiveType {
    /// Rectangles and circles are drawn as triangle lists, lines as line lists.
    pub fn topology(&self) -> (topology: PrimitiveTopology)
        ensures
            topology == (match *self {
                PrimitiveType::Line => PrimitiveTopology::LineList,
                _ => PrimitiveTopology::TriangleList,
            }),
    {
        match self {
            PrimitiveType::Rectangle => PrimitiveTopology::TriangleList,
            PrimitiveType::Circle => PrimitiveTopology::TriangleList,
            PrimitiveType::Line => PrimitiveTopology::LineList,
        }
    }
}

} // verus!
