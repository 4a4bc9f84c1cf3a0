//! The browser.

use crate::command::command_for;
use crate::command::command_of;
use crate::command::step;
use crate::command::Command;
use crate::command::Event;
use crate::graph::graph_view;
use crate::graph::rows_for;
use crate::graph::CallGraph;
use crate::graph::GraphView;
use crate::row::rows_of_items;
use crate::row::Item;
use crate::state::back;
use crate::state::cursor_next;
use crate::state::cursor_prev;
use crate::state::initial;
use crate::state::lemma_rows_shape;
use crate::state::load;
use crate::state::select;
use crate::state::valid;
use crate::state::State;
use vstd::prelude::*;

verus! {

/// A browser on a call graph: the graph, the function that is being shown, the rows
/// displayed for it, the cursor, and the way back.
pub struct App {
    history: Vec<u32>,
    graph: CallGraph,
    items: Vec<Item>,
    cur: usize,
    node: u32,
}

/// The title of the panel in which the rows are displayed.
pub const TITLE: &'static str = "List";

/// One line of the display.
#[derive(Clone, Debug, PartialEq, Eq)]
pub struct Line {
    /// The text of the line.
    pub text: String,
    /// Whether the cursor is on the line.
    pub active: bool,
}

impl View for App {
    type V = State;

    open spec fn view(&self) -> State {
        self.state()
    }
}

impl App {
    /// The state of the browser.
    pub closed spec fn state(&self) -> State {
        State {
            node: self.node,
            rows: rows_of_items(self.items@),
            cursor: self.cur as nat,
            history: self.history@,
        }
    }

    /// What the browser reads of its graph.
    pub closed spec fn graph_view(&self) -> GraphView {
        graph_view(self.graph)
    }

    /// Whether the browser is in a state that it can be in.
    pub open spec fn wf(&self) -> bool {
        valid(self.graph_view(), self@)
    }

    /// Starts a browser on `graph` that shows `start`. If the graph holds no function
    /// under `start`, the browser starts without rows and shows nothing until it is
    /// asked to show a function that the graph holds.
    pub fn new(start: u32, graph: CallGraph) -> (app: App)
        ensures
            app.wf(),
            app.graph_view() == graph_view(graph),
            app@ == initial(graph_view(graph), start),
            graph_view(graph).has(start) ==> {
                &&& app@.node == start
                &&& app@.rows.len() > 0
                &&& app@.rows[0].node == start
                &&& app@.cursor == 0
                &&& app@.history.len() == 0
            },
    {
        let mut app = App { history: Vec::new(), graph, items: Vec::new(), cur: 0, node: start };
        assert(app@.rows =~= Seq::empty());
        app.load_items(start, false);
        proof {
            if app.graph_view().has(start) {
                lemma_rows_shape(app.graph_view(), start);
            }
        }
        app
    }

    /// Shows `node`. A handle under which the graph holds no function is ignored, and
    /// nothing changes. Otherwise the rows are made anew for `node`, the cursor goes to
    /// the first of them, and if `push_history` is set the function that was shown
    /// until now is added to the way back.
    pub fn load_items(&mut self, node: u32, push_history: bool)
        ensures
            final(self).graph_view() == old(self).graph_view(),
            final(self)@ == load(old(self).graph_view(), old(self)@, node, push_history),
            !old(self).graph_view().has(node) ==> *final(self) == *old(self),
            old(self).graph_view().has(node) ==> final(self).wf(),
            old(self).wf() ==> final(self).wf(),
    {
        match rows_for(&self.graph, node) {
            None => {},
            Some(items) => {
                if push_history {
                    self.history.push(self.node);
                }
                self.node = node;
                self.items = items;
                self.cur = 0;
                proof {
                    lemma_rows_shape(self.graph_view(), node);
                }
            },
        }
    }

    /// Goes back: takes the latest function off the way back and shows it. With no way
    /// back nothing changes. The function that is left is not kept anywhere.
    pub fn back(&mut self)
        requires
            old(self).wf(),
        ensures
            final(self).wf(),
            final(self).graph_view() == old(self).graph_view(),
            final(self)@ == back(old(self).graph_view(), old(self)@),
            old(self)@.history.len() == 0 ==> *final(self) == *old(self),
    {
        if self.history.len() > 0 {
            let node = self.history.pop().unwrap();
            assert(self.history@ =~= old(self).history@.drop_last());
            self.load_items(node, false);
        }
    }

    /// Shows the function of the row under the cursor, and adds the function that was
    /// shown until now to the way back. With the cursor on the first row nothing
    /// changes.
    pub fn select(&mut self)
        requires
            old(self).wf(),
        ensures
            final(self).wf(),
            final(self).graph_view() == old(self).graph_view(),
            final(self)@ == select(old(self).graph_view(), old(self)@),
            old(self)@.cursor == 0 ==> *final(self) == *old(self),
    {
        if self.cur != 0 {
            let target = self.items[self.cur].node;
            self.load_items(target, true);
        }
    }

    /// Moves the cursor one row down, and from the last row to the first.
    pub fn cursor_next(&mut self)
        requires
            old(self).wf(),
        ensures
            final(self).wf(),
            final(self).graph_view() == old(self).graph_view(),
            final(self)@ == cursor_next(old(self)@),
            old(self)@.cursor + 1 == old(self)@.rows.len() ==> final(self)@.cursor == 0,
    {
        assert(self.cur <= self.items.len());
        self.cur = self.cur + 1;
        if self.cur >= self.items.len() {
            self.cur = 0;
        }
    }

    /// Moves the cursor one row up, and from the first row to the last. Without rows
    /// the cursor stays where it is.
    pub fn cursor_prev(&mut self)
        requires
            old(self).wf(),
        ensures
            final(self).wf(),
            final(self).graph_view() == old(self).graph_view(),
            final(self)@ == cursor_prev(old(self)@),
            old(self)@.cursor == 0 && old(self)@.rows.len() > 0 ==> final(self)@.cursor
                == old(self)@.rows.len() - 1,
    {
        if self.cur == 0 {
            if self.items.len() > 0 {
                self.cur = self.items.len() - 1;
            }
        } else {
            self.cur = self.cur - 1;
        }
    }

    /// Carries out a command, and says whether the browser goes on: it does until it
    /// is told to quit.
    pub fn apply(&mut self, command: Command) -> (running: bool)
        requires
            old(self).wf(),
        ensures
            final(self).wf(),
            final(self).graph_view() == old(self).graph_view(),
            final(self)@ == step(old(self).graph_view(), old(self)@, command),
            running == (command != Command::Quit),
    {
        match command {
            Command::Quit => false,
            Command::CursorNext => {
                self.cursor_next();
                true
            },
            Command::CursorPrev => {
                self.cursor_prev();
                true
            },
            Command::Select => {
                self.select();
                true
            },
            Command::Back => {
                self.back();
                true
            },
            Command::Nothing => true,
        }
    }

    /// Takes an event of the terminal, and says whether the browser goes on.
    pub fn handle(&mut self, event: Event) -> (running: bool)
        requires
            old(self).wf(),
        ensures
            final(self).wf(),
            final(self).graph_view() == old(self).graph_view(),
            final(self)@ == step(old(self).graph_view(), old(self)@, command_of(event)),
            running == (command_of(event) != Command::Quit),
    {
        self.apply(command_for(event))
    }

    /// The lines of the display, top down: the text of each row, and whether the
    /// cursor is on it.
    pub fn display(&self) -> (lines: Vec<Line>)
        ensures
            lines.len() == self@.rows.len(),
            forall|i: int|
                0 <= i < lines.len() ==> (#[trigger] lines[i]).text@ == self@.rows[i].label
                    && lines[i].active == (i == self@.cursor),
    {
        let mut lines: Vec<Line> = Vec::new();
        let mut i: usize = 0;
        while i < self.items.len()
            invariant
                i <= self.items.len(),
                lines.len() == i,
                forall|j: int|
                    0 <= j < i ==> (#[trigger] lines[j]).text@ == self.items[j].label@
                        && lines[j].active == (j == self.cur),
            decreases self.items.len() - i,
        {
            lines.push(Line { text: self.items[i].label.clone(), active: i == self.cur });
            i = i + 1;
        }
        lines
    }

    /// The function that is being shown.
    pub fn current(&self) -> (node: u32)
        ensures
            node == self@.node,
    {
        self.node
    }

    /// The index of the row that the cursor is on.
    pub fn cursor(&self) -> (cursor: usize)
        ensures
            cursor == self@.cursor,
    {
        self.cur
    }

    /// The rows that are displayed.
    pub fn items(&self) -> (items: &Vec<Item>)
        ensures
            rows_of_items(items@) == self@.rows,
    {
        &self.items
    }

    /// The way back: the functions that were left on the way to the one that is being
    /// shown, the latest last.
    pub fn history(&self) -> (history: &Vec<u32>)
        ensures
            history@ == self@.history,
    {
        &self.history
    }

    /// The graph that is browsed.
    pub fn graph(&self) -> (graph: &CallGraph)
        ensures
            graph_view(*graph) == self.graph_view(),
    {
        &self.graph
    }
}

} // verus!
