//! The functions of the analysed program.

use vstd::prelude::*;

verus! {

/// A function of the analysed program and what is known of its stack usage.
#[derive(Clone, Debug, PartialEq, Eq)]
pub struct Node {
    /// The function's name.
    pub name: String,
    /// The stack the function uses by itself.
    pub local: u64,
    /// The most stack the function and everything it calls can use, where that is
    /// known.
    pub max: Option<u64>,
}

/// What a [`Node`] holds, as plain values.
pub struct NodeView {
    pub name: Seq<char>,
    pub local: u64,
    pub max: Option<u64>,
}

impl View for Node {
    type V = NodeView;

    open spec fn view(&self) -> NodeView {
        NodeView { name: self.name@, local: self.local, max: self.max }
    }
}

/// What a lookup found, as plain values.
pub open spec fn found_view(found: Option<&Node>) -> Option<NodeView> {
    match found {
        Some(node) => Some(node@),
        None => None,
    }
}

} // verus!
