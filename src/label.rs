use vstd::prelude::*;

verus! {

/// Interned identity of a node of a render graph.
///
/// The interning table hands out one handle per distinct label; equal handles
/// denote the same label, so comparing two labels compares two integers.
#[derive(Clone, Copy, Debug, PartialEq, Eq, Hash, Structural)]
pub struct InternedRenderLabel {
    pub id: u64,
}

/// Interned identity of a sub-graph of a render graph.
#[derive(Clone, Copy, Debug, PartialEq, Eq, Hash, Structural)]
pub struct InternedRenderSubGraph {
    pub id: u64,
}

impl InternedRenderLabel {
    pub fn new(id: u64) -> (r: Self)
        ensures
            r.id == id,
    {
        InternedRenderLabel { id }
    }
}

impl InternedRenderSubGraph {
    pub fn new(id: u64) -> (r: Self)
        ensures
            r.id == id,
    {
        InternedRenderSubGraph { id }
    }
}

} // verus!
