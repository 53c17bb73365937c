//! Blending modes for drawing.

use vstd::prelude::*;

verus! {

/// The blending factors a blend equation can weight its operands with.
#[derive(Debug, Clone, Copy, PartialEq, Eq, Structural)]
pub enum Factor {
    Zero,
    One,
    SrcColor,
    OneMinusSrcColor,
    DstColor,
    OneMinusDstColor,
    SrcAlpha,
    OneMinusSrcAlpha,
    DstAlpha,
    OneMinusDstAlpha,
}

/// The equations that combine source and destination pixels.
#[derive(Debug, Clone, Copy, PartialEq, Eq, Structural)]
pub enum Equation {
    Add,
    Subtract,
    ReverseSubtract,
    Min,
    Max,
}

/// A complete blend mode: factors and equation for the color and the alpha
/// channel.
#[derive(Debug, Clone, Copy, PartialEq, Eq, Structural)]
pub struct BlendMode {
    pub color_src_factor: Factor,
    pub color_dst_factor: Factor,
    pub color_equation: Equation,
    pub alpha_src_factor: Factor,
    pub alpha_dst_factor: Factor,
    pub alpha_equation: Equation,
}

} // verus!
