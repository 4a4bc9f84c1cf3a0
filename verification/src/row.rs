//! The rows of the display.
//!
//! The first row is the function that is being shown. Each row behind it is a function
//! that it calls, ranked by that function's worst-case stack usage. A function whose
//! worst case is unknown is ranked as if it used no stack at all.

use crate::node::found_view;
use crate::node::Node;
use crate::node::NodeView;
use crate::text::callee_label;
use crate::text::describe;
use crate::text::describe_found;
use crate::text::push_decimal;
use crate::text::push_padded;
use crate::text::self_label;
use vstd::prelude::*;

verus! {

/// One displayed row: a function, the key it is ranked by, and its text.
#[derive(Clone, Debug, PartialEq, Eq)]
pub struct Item {
    /// The handle of the function in the graph.
    pub node: u32,
    /// The key the row is ranked by.
    pub key: u64,
    /// The text shown for the row.
    pub label: String,
}

/// What an [`Item`] holds, as plain values.
pub struct Row {
    pub node: u32,
    pub key: u64,
    pub label: Seq<char>,
}

impl View for Item {
    type V = Row;

    open spec fn view(&self) -> Row {
        Row { node: self.node, key: self.key, label: self.label@ }
    }
}

/// The rows that a list of items shows, in order.
pub open spec fn rows_of_items(items: Seq<Item>) -> Seq<Row> {
    items.map_values(|item: Item| item@)
}

/// The key by which a called function is ranked: its worst-case stack usage, or 0
/// where that is unknown or the graph does not hold the function.
pub open spec fn rank_key(node: Option<NodeView>) -> u64 {
    match node {
        Some(n) => match n.max {
            Some(max) => max,
            None => 0,
        },
        None => 0,
    }
}

/// The row of the function that is being shown. Its key is never read.
pub open spec fn self_row(id: u32, node: NodeView) -> Row {
    Row { node: id, key: 0, label: self_label(id, node) }
}

/// The row of a called function.
pub open spec fn callee_row(id: u32, node: Option<NodeView>) -> Row {
    Row { node: id, key: rank_key(node), label: callee_label(id, node) }
}

/// Makes the row of the function that is being shown.
pub fn self_item(id: u32, node: &Node) -> (item: Item)
    ensures
        item@ == self_row(id, node@),
{
    let mut label = String::new();
    push_decimal(&mut label, id as u64);
    label.append(" ");
    let desc = describe(node);
    label.append(desc.as_str());
    Item { node: id, key: 0, label }
}

/// Makes the row of a called function from what the graph holds under its handle.
pub fn callee_item(id: u32, node: Option<&Node>) -> (item: Item)
    ensures
        item@ == callee_row(id, found_view(node)),
{
    let mut number = String::new();
    push_decimal(&mut number, id as u64);
    let mut label = String::new();
    label.append(" ");
    push_padded(&mut label, number.as_str(), 5);
    label.append(" ");
    let desc = describe_found(node);
    label.append(desc.as_str());
    let key = match node {
        Some(n) => match n.max {
            Some(max) => max,
            None => 0,
        },
        None => 0,
    };
    Item { node: id, key, label }
}

} // verus!
