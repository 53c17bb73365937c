//! Shader-handling outcomes.

use vstd::prelude::*;

verus! {

/// What can go wrong when creating a shader or setting a uniform.
#[derive(Debug, Clone, Copy, PartialEq, Eq, Structural)]
pub enum ShaderError {
    NullPointerUnknownReason,
    InvalidUniformType,
}

} // verus!
