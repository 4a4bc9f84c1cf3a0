//! The text of a row.
//!
//! A row names a function by its handle and describes it: its worst-case stack
//! usage in a column of ten characters, its own stack usage in a column of five,
//! then its name. Columns are filled with spaces on the right and never cut.

use crate::node::found_view;
use crate::node::Node;
use crate::node::NodeView;
use vstd::prelude::*;

verus! {

/// The decimal digits, in order.
pub open spec fn digits() -> Seq<char> {
    "0123456789"@
}

/// `n` in decimal, without leading zeros.
pub open spec fn decimal(n: nat) -> Seq<char>
    decreases n,
{
    if n < 10 {
        seq![digits()[n as int]]
    } else {
        decimal(n / 10).push(digits()[(n % 10) as int])
    }
}

/// `count` spaces.
pub open spec fn spaces(count: nat) -> Seq<char> {
    Seq::new(count, |i: int| ' ')
}

/// `text` filled with spaces on the right up to `width` characters. A longer text is
/// left as it is.
pub open spec fn pad_right(text: Seq<char>, width: nat) -> Seq<char> {
    if text.len() >= width {
        text
    } else {
        text + spaces((width - text.len()) as nat)
    }
}

/// How a worst-case stack usage is written: in decimal, or `?` where it is unknown.
pub open spec fn max_text(max: Option<u64>) -> Seq<char> {
    match max {
        Some(m) => decimal(m as nat),
        None => "?"@,
    }
}

/// The description of a function: both stack usages in their columns, then the name.
pub open spec fn node_desc(node: NodeView) -> Seq<char> {
    "max "@ + pad_right(max_text(node.max), 10) + " local = "@ + pad_right(
        decimal(node.local as nat),
        5,
    ) + " "@ + node.name
}

/// The description that stands for a handle under which the graph holds no function.
pub open spec fn missing_desc() -> Seq<char> {
    "node not found!"@
}

/// The description of what the graph holds, or does not hold, under a handle.
pub open spec fn desc_of(node: Option<NodeView>) -> Seq<char> {
    match node {
        Some(n) => node_desc(n),
        None => missing_desc(),
    }
}

/// The text of the row of the function that is being shown.
pub open spec fn self_label(id: u32, node: NodeView) -> Seq<char> {
    decimal(id as nat) + " "@ + node_desc(node)
}

/// The text of the row of a called function.
pub open spec fn callee_label(id: u32, node: Option<NodeView>) -> Seq<char> {
    " "@ + pad_right(decimal(id as nat), 5) + " "@ + desc_of(node)
}

/// Writes `n` in decimal at the end of `out`.
pub fn push_decimal(out: &mut String, n: u64)
    ensures
        final(out)@ == old(out)@ + decimal(n as nat),
    decreases n,
{
    if n >= 10 {
        push_decimal(out, n / 10);
    }
    let d: usize = (n % 10) as usize;
    proof {
        reveal_strlit("0123456789");
    }
    let digit = "0123456789".substring_ascii(d, d + 1);
    assert(digit@ =~= seq![digits()[d as int]]);
    out.append(digit);
}

/// Writes `text` at the end of `out`, then spaces until `width` characters are
/// written.
pub fn push_padded(out: &mut String, text: &str, width: usize)
    ensures
        final(out)@ == old(out)@ + pad_right(text@, width as nat),
{
    out.append(text);
    let len: usize = text.unicode_len();
    let mut written: usize = len;
    while written < width
        invariant
            len == text@.len(),
            len <= written,
            written <= width || written == len,
            out@ == old(out)@ + text@ + spaces((written - len) as nat),
        decreases width - written,
    {
        proof {
            reveal_strlit(" ");
        }
        out.append(" ");
        written = written + 1;
    }
}

/// Describes a function.
pub fn describe(node: &Node) -> (text: String)
    ensures
        text@ == node_desc(node@),
{
    let mut number = String::new();
    match node.max {
        Some(m) => push_decimal(&mut number, m),
        None => number.append("?"),
    }
    let mut text = String::new();
    text.append("max ");
    push_padded(&mut text, number.as_str(), 10);
    text.append(" local = ");
    let mut local = String::new();
    push_decimal(&mut local, node.local);
    push_padded(&mut text, local.as_str(), 5);
    text.append(" ");
    text.append(node.name.as_str());
    text
}

/// Describes what the graph holds, or does not hold, under a handle.
pub fn describe_found(node: Option<&Node>) -> (text: String)
    ensures
        text@ == desc_of(found_view(node)),
{
    match node {
        Some(n) => describe(n),
        None => {
            let mut text = String::new();
            text.append("node not found!");
            text
        },
    }
}

} // verus!
