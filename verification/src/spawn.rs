//! The outline of a new shape, and how a spawner's objects take part in
//! the physics.
use vstd::prelude::*;
use vstd::string::StringExecFns;

verus! {

/// The rigid body an object of a spawner with a collider gets.
#[derive(PartialEq, Eq, Structural, Clone, Copy, Debug)]
pub enum BodyKind {
    /// Does not move (`"static"`).
    Fixed,
    /// Moves, with continuous collision detection, but never turns (`"diaxial"`).
    DynamicNoRotation,
    /// Moves and turns, with continuous collision detection (any other collision).
    Dynamic,
}

/// The body kind that a collider's collision setting asks for.
pub open spec fn body_kind_of(collision: Seq<char>) -> BodyKind {
    if collision == "static"@ {
        BodyKind::Fixed
    } else if collision == "diaxial"@ {
        BodyKind::DynamicNoRotation
    } else {
        BodyKind::Dynamic
    }
}

/// The body kind for the objects of a spawner whose collider has the
/// collision setting `collision`.
pub fn body_kind(collision: &str) -> (kind: BodyKind)
    ensures
        kind == body_kind_of(collision@),
{
    let setting = String::from_str(collision);
    if setting == String::from_str("static") {
        BodyKind::Fixed
    } else if setting == String::from_str("diaxial") {
        BodyKind::DynamicNoRotation
    } else {
        BodyKind::Dynamic
    }
}


/// The outlines `lora.new.shape` knows.
#[derive(PartialEq, Eq, Structural, Clone, Copy, Debug)]
pub enum ShapeKind {
    /// Four corners, drawn as a strip of two triangles.
    Rectangle,
    /// Three corners.
    Triangle,
    /// Any other name: a shape with no corners, which draws nothing.
    Empty,
}

/// The outline that a shape name asks for.
pub open spec fn shape_kind_of(kind: Seq<char>) -> ShapeKind {
    if kind == "rectangle"@ {
        ShapeKind::Rectangle
    } else if kind == "triangle"@ {
        ShapeKind::Triangle
    } else {
        ShapeKind::Empty
    }
}

/// The indices of the corners of an outline, in drawing order.
pub open spec fn corner_indices(kind: ShapeKind) -> Seq<u32> {
    match kind {
        ShapeKind::Rectangle => seq![0u32, 1, 2, 3],
        ShapeKind::Triangle => seq![0u32, 1, 2],
        ShapeKind::Empty => seq![],
    }
}

/// The outline for the shape name given to `lora.new.shape`.
pub fn shape_kind(kind: &str) -> (outline: ShapeKind)
    ensures
        outline == shape_kind_of(kind@),
{
    let name = String::from_str(kind);
    if name == String::from_str("rectangle") {
        ShapeKind::Rectangle
    } else if name == String::from_str("triangle") {
        ShapeKind::Triangle
    } else {
        ShapeKind::Empty
    }
}

impl ShapeKind {
    /// The indices of the corners of this outline, in drawing order.
    pub fn indices(&self) -> (indices: Vec<u32>)
        ensures
            indices@ == corner_indices(*self),
    {
        let mut indices: Vec<u32> = Vec::new();
        match self {
            ShapeKind::Rectangle => {
                indices.push(0);
                indices.push(1);
                indices.push(2);
                indices.push(3);
            },
            ShapeKind::Triangle => {
                indices.push(0);
                indices.push(1);
                indices.push(2);
            },
            ShapeKind::Empty => {},
        }
        assert(indices@ =~= corner_indices(*self));
        indices
    }
}

} // verus!
