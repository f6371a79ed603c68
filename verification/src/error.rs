//! Error values reported by the library.

use crate::variable::Variable;
use vstd::prelude::*;

verus! {

/// A general error carrying a human-readable message.
#[derive(Debug)]
pub struct GameError(pub String);

impl GameError {
    pub fn new(text: String) -> (e: Self)
        ensures
            e.0 == text,
    {
        GameError(text)
    }

    /// The error's message.
    pub fn message(&self) -> (m: &String)
        ensures
            m == &self.0,
    {
        &self.0
    }
}

/// A per-tick evaluation failure. The host loop can recover from it by
/// holding the last valid frame; the graph is left where the walk stopped.
#[derive(Debug)]
pub enum GraphEvaluationError {
    /// A switch node was evaluated and none of its cases matched the live
    /// variables. Carries the offending node index and the variable snapshot
    /// that was observed.
    UnmatchedSwitch { node: usize, variables: Vec<Variable> },
    /// The walk visited more nodes than the graph holds without reaching a
    /// state node, so the topology cycles without emitting frames. Carries
    /// the node at which the walk was cut off. The hop budget is the node
    /// count: a topology whose intended walks revisit nodes often enough to
    /// exceed it is reported here rather than walked further.
    CyclicWalk { node: usize },
}

} // verus!
