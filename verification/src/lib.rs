//! A browser over a call graph annotated with stack usage.
//!
//! The graph is built elsewhere and never changed here. The browser shows one
//! function at a time, followed by the functions it calls, the costliest first, and
//! lets a cursor descend into a callee or go back the way it came.

pub mod app;
pub mod command;
pub mod graph;
pub mod node;
pub mod rank;
pub mod row;
pub mod state;
pub mod text;
