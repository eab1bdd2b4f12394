//! Values that can be uploaded to a shader uniform, tagged by GLSL type.

use vstd::prelude::*;

verus! {

/// A uniform payload tagged by its GLSL type, or the distinguished
/// `NoValue`, which a draw environment treats as a request to delete.
///
/// Floating-point components are held as IEEE 754 single-precision bit
/// patterns (as `f32::to_bits` gives them); matrices are column-major.
#[derive(Clone, Copy, Debug, PartialEq)]
pub enum GLSLAny {
    NoValue,
    Float(u32),
    Vec2([u32; 2]),
    Vec3([u32; 3]),
    Vec4([u32; 4]),
    Int(i32),
    IVec2([i32; 2]),
    IVec3([i32; 3]),
    IVec4([i32; 4]),
    UInt(u32),
    UVec2([u32; 2]),
    UVec3([u32; 3]),
    UVec4([u32; 4]),
    Bool(bool),
    Mat2([u32; 4]),
    Mat3([u32; 9]),
    Mat4([u32; 16]),
}

impl GLSLAny {
    /// Whether this is the deletion marker rather than a value.
    pub fn is_no_value(&self) -> (r: bool)
        ensures
            r == (*self is NoValue),
    {
        match self {
            GLSLAny::NoValue => true,
            _ => false,
        }
    }
}

} // verus!
