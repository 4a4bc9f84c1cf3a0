//! The browser as a state machine.
//!
//! A state is the function that is being shown, the rows displayed for it, the cursor,
//! and the way back: the functions that were left in order to get here, the latest
//! last. Every command is a step from one state to the next over a graph that stays as
//! it is.

use crate::graph::GraphView;
use crate::rank::lemma_arranged_shape;
use crate::rank::lemma_ranked_same_rows;
use crate::rank::ranked;
use crate::row::Row;
use vstd::prelude::*;

verus! {

/// The state of the browser.
pub struct State {
    /// The function that is being shown.
    pub node: u32,
    /// The rows that are displayed.
    pub rows: Seq<Row>,
    /// The index of the row that the cursor is on.
    pub cursor: nat,
    /// The functions that were left on the way to `node`, the latest last. Where
    /// functions call themselves or each other, the way may lead through `node`
    /// itself.
    pub history: Seq<u32>,
}

/// What holds of the browser's state at all times. While the graph holds the function
/// that is being shown, the rows are the rows of that function and the cursor is on
/// one of them. It does not hold it only if the browser was started on a handle that
/// the graph lacks; then there are no rows, and the cursor stays at 0.
pub open spec fn valid(graph: GraphView, state: State) -> bool {
    if graph.has(state.node) {
        &&& state.rows == graph.rows(state.node)
        &&& state.cursor < state.rows.len()
    } else {
        &&& state.rows.len() == 0
        &&& state.cursor == 0
    }
}

/// The state after the browser was asked to show `node`. A handle that the graph lacks
/// is ignored. Otherwise `node` is shown with the cursor on its own row, and the
/// function that was shown before is added to the way back if `push_history` is set.
pub open spec fn load(graph: GraphView, state: State, node: u32, push_history: bool) -> State {
    if graph.has(node) {
        State {
            node,
            rows: graph.rows(node),
            cursor: 0,
            history: if push_history {
                state.history.push(state.node)
            } else {
                state.history
            },
        }
    } else {
        state
    }
}

/// The state in which the browser starts on `root`.
pub open spec fn initial(graph: GraphView, root: u32) -> State {
    load(graph, State { node: root, rows: Seq::empty(), cursor: 0, history: Seq::empty() }, root, false)
}

/// The state after going back: the latest function is taken off the way back and
/// shown. With no way back nothing changes.
pub open spec fn back(graph: GraphView, state: State) -> State {
    if state.history.len() == 0 {
        state
    } else {
        load(
            graph,
            State { history: state.history.drop_last(), ..state },
            state.history.last(),
            false,
        )
    }
}

/// The state after selecting the row under the cursor: the function of that row is
/// shown. On the first row, which is the function that is shown already, nothing
/// changes.
pub open spec fn select(graph: GraphView, state: State) -> State {
    if state.cursor == 0 || state.cursor >= state.rows.len() {
        state
    } else {
        load(graph, state, state.rows[state.cursor as int].node, true)
    }
}

/// The state after moving the cursor one row down, from the last row to the first.
pub open spec fn cursor_next(state: State) -> State {
    State {
        cursor: if state.cursor + 1 >= state.rows.len() {
            0
        } else {
            state.cursor + 1
        },
        ..state
    }
}

/// The state after moving the cursor one row up, from the first row to the last.
/// Without rows the cursor stays where it is.
pub open spec fn cursor_prev(state: State) -> State {
    State {
        cursor: if state.rows.len() == 0 {
            state.cursor
        } else if state.cursor == 0 {
            (state.rows.len() - 1) as nat
        } else {
            (state.cursor - 1) as nat
        },
        ..state
    }
}

/// `state` with the cursor on row `cursor`.
pub open spec fn with_cursor(state: State, cursor: nat) -> State {
    State { cursor, ..state }
}

/// Whether each of `picks`, taken in turn as the row to select, is a row behind the
/// first whose function the graph holds.
pub open spec fn can_descend(graph: GraphView, state: State, picks: Seq<nat>) -> bool
    decreases picks.len(),
{
    picks.len() == 0 || {
        &&& 0 < picks[0] < state.rows.len()
        &&& graph.has(state.rows[picks[0] as int].node)
        &&& can_descend(
            graph,
            select(graph, with_cursor(state, picks[0])),
            picks.drop_first(),
        )
    }
}

/// The state after selecting the rows `picks`, one after the other.
pub open spec fn descend(graph: GraphView, state: State, picks: Seq<nat>) -> State
    decreases picks.len(),
{
    if picks.len() == 0 {
        state
    } else {
        descend(graph, select(graph, with_cursor(state, picks[0])), picks.drop_first())
    }
}

/// The state after going back `steps` times.
pub open spec fn ascend(graph: GraphView, state: State, steps: nat) -> State
    decreases steps,
{
    if steps == 0 {
        state
    } else {
        back(graph, ascend(graph, state, (steps - 1) as nat))
    }
}

/// The rows of a function begin with its own row, and hold one more row for each of
/// its calls: the rows of the called functions, none added and none lost. With two
/// calls or fewer they stand in the graph's order.
pub proof fn lemma_rows_shape(graph: GraphView, id: u32)
    requires
        graph.has(id),
    ensures
        graph.rows(id).len() == graph.callees(id).len() + 1,
        graph.rows(id)[0] == graph.raw_rows(id)[0],
        graph.rows(id)[0].node == id,
        graph.rows(id).skip(1).to_multiset() == graph.callee_rows(id).to_multiset(),
        graph.callees(id).len() <= 2 ==> graph.rows(id) == graph.raw_rows(id),
{
    let raw = graph.raw_rows(id);
    lemma_arranged_shape(raw);
    assert(raw.skip(1) =~= graph.callee_rows(id));
    if raw.len() > 3 {
        lemma_ranked_same_rows(raw.skip(1));
        assert(graph.rows(id).skip(1) =~= ranked(raw.skip(1)));
    }
}

/// Starting on a function that the graph holds shows that function in the first row,
/// with the cursor on it and no way back.
pub proof fn lemma_start(graph: GraphView, root: u32)
    requires
        graph.has(root),
    ensures
        valid(graph, initial(graph, root)),
        initial(graph, root).node == root,
        initial(graph, root).rows[0].node == root,
        initial(graph, root).cursor == 0,
        initial(graph, root).history == Seq::<u32>::empty(),
{
    lemma_rows_shape(graph, root);
}

/// Showing a function keeps the state valid.
pub proof fn lemma_load_valid(graph: GraphView, state: State, node: u32, push_history: bool)
    requires
        valid(graph, state),
    ensures
        valid(graph, load(graph, state, node, push_history)),
{
    if graph.has(node) {
        lemma_rows_shape(graph, node);
    }
}

/// Going back keeps the state valid.
pub proof fn lemma_back_valid(graph: GraphView, state: State)
    requires
        valid(graph, state),
    ensures
        valid(graph, back(graph, state)),
{
    if state.history.len() > 0 {
        lemma_load_valid(
            graph,
            State { history: state.history.drop_last(), ..state },
            state.history.last(),
            false,
        );
    }
}

/// Selecting keeps the state valid.
pub proof fn lemma_select_valid(graph: GraphView, state: State)
    requires
        valid(graph, state),
    ensures
        valid(graph, select(graph, state)),
{
    if !(state.cursor == 0 || state.cursor >= state.rows.len()) {
        lemma_load_valid(graph, state, state.rows[state.cursor as int].node, true);
    }
}

/// Descending through rows that the graph holds, and then going back as many times,
/// ends on the function on which it began, with the way back and the rows that there
/// were then.
pub proof fn lemma_descend_then_ascend(graph: GraphView, state: State, picks: Seq<nat>)
    requires
        valid(graph, state),
        can_descend(graph, state, picks),
    ensures
        ascend(graph, descend(graph, state, picks), picks.len()).node == state.node,
        ascend(graph, descend(graph, state, picks), picks.len()).history == state.history,
        ascend(graph, descend(graph, state, picks), picks.len()).rows == state.rows,
        valid(graph, ascend(graph, descend(graph, state, picks), picks.len())),
    decreases picks.len(),
{
    if picks.len() > 0 {
        let next = select(graph, with_cursor(state, picks[0]));
        let rest = picks.drop_first();
        lemma_select_valid(graph, with_cursor(state, picks[0]));
        lemma_descend_then_ascend(graph, next, rest);
        let low = ascend(graph, descend(graph, next, rest), rest.len());
        assert(low.history == state.history.push(state.node));
        assert(low.history.drop_last() =~= state.history);
        assert(graph.has(state.node));
        lemma_back_valid(graph, low);
    }
}

} // verus!
