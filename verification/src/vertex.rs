//! Vertex buffer usage hints.

use vstd::prelude::*;

verus! {

/// How often a vertex buffer's contents are expected to change.
#[derive(Debug, Clone, Copy, PartialEq, Eq, Structural)]
pub enum Usage {
    Static,
    Dynamic,
    Stream,
}

} // verus!
