use vstd::prelude::*;

verus! {

/// `0.0` as an IEEE-754 single-precision bit pattern.
pub const F32_ZERO: u32 = 0x0000_0000;

/// `1.0` as an IEEE-754 single-precision bit pattern.
pub const F32_ONE: u32 = 0x3f80_0000;

/// `0.5` as an IEEE-754 single-precision bit pattern.
pub const F32_HALF: u32 = 0x3f00_0000;

/// `-0.5` as an IEEE-754 single-precision bit pattern.
pub const F32_MINUS_HALF: u32 = 0xbf00_0000;

/// No offset, unit scale, no rotation.
pub open spec fn identity_transform() -> Transform {
    Transform {
        position: Vec2 { x: F32_ZERO, y: F32_ZERO },
        scale: Vec2 { x: F32_ONE, y: F32_ONE },
        rotation: F32_ZERO,
    }
}

/// A 2D vector. Each coordinate is a single-precision float held as its
/// IEEE-754 bit pattern: the library moves geometry into instance records
/// and never computes with it.
#[derive(Clone, Copy, Debug, PartialEq, Eq, Structural)]
pub struct Vec2 {
    pub x: u32,
    pub y: u32,
}

impl Vec2 {
    pub fn new(x: u32, y: u32) -> (v: Vec2)
        ensures
            v == (Vec2 { x, y }),
    {
        Vec2 { x, y }
    }

    /// `(0, 0)`.
    pub fn zero() -> (v: Vec2)
        ensures
            v == (Vec2 { x: F32_ZERO, y: F32_ZERO }),
    {
        Vec2 { x: F32_ZERO, y: F32_ZERO }
    }

    /// `(1, 1)`.
    pub fn one() -> (v: Vec2)
        ensures
            v == (Vec2 { x: F32_ONE, y: F32_ONE }),
    {
        Vec2 { x: F32_ONE, y: F32_ONE }
    }
}

/// Placement of a shape: offset, scale and rotation (radians, as an
/// IEEE-754 bit pattern).
#[derive(Clone, Copy, Debug, PartialEq, Eq, Structural)]
pub struct Transform {
    pub position: Vec2,
    pub scale: Vec2,
    pub rotation: u32,
}

impl Transform {
    pub fn new(position: Vec2, scale: Vec2, rotation: u32) -> (t: Transform)
        ensures
            t == (Transform { position, scale, rotation }),
    {
        Transform { position, scale, rotation }
    }

    /// No offset, unit scale, no rotation.
    pub fn identity() -> (t: Transform)
        ensures
            t == identity_transform(),
    {
        Transform { position: Vec2::zero(), scale: Vec2::one(), rotation: F32_ZERO }
    }

    pub fn with_position(self, position: Vec2) -> (t: Transform)
        ensures
            t == (Transform { position, ..self }),
    {
        Transform { position, ..self }
    }

    pub fn with_scale(self, scale: Vec2) -> (t: Transform)
        ensures
            t == (Transform { scale, ..self }),
    {
        Transform { scale, ..self }
    }

    pub fn with_rotation(self, rotation: u32) -> (t: Transform)
        ensures
            t == (Transform { rotation, ..self }),
    {
        Transform { rotation, ..self }
    }
}

impl Default for Transform {
    fn default() -> (t: Transform)
        ensures
            t == identity_transform(),
    {
        Transform::identity()
    }
}

} // verus!
