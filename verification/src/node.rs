//! Graph nodes: the four kinds of node in the transition topology.
//!
//! Nodes reference each other and the variable vector by plain integer
//! indices, so the topology is an index graph with no ownership cycles.

use crate::variable::Variable;
use vstd::prelude::*;

verus! {

/// One unit of graph topology.
#[derive(Debug)]
pub enum NodeType {
    /// Unconditional entry redirect: the index of the first node.
    Root(usize),
    /// Emits frames for the named animation, then moves on to the node at
    /// the given index; the final flag marks the state as locking (it cannot
    /// be interrupted by a reset until it completes naturally).
    State(String, usize, bool),
    /// Conditional branching: `cases[i]` has one pattern per `variables`
    /// slot; the first case whose every pattern equals (wildcard-aware) the
    /// corresponding live variable wins, and `result[i]` is the next node.
    Switch {
        /// Indices into the graph's variable vector.
        variables: Vec<usize>,
        /// The patterns each case checks against the gathered values.
        cases: Vec<Vec<Variable>>,
        /// The node each case transfers to.
        result: Vec<usize>,
    },
    /// Overwrites the variables at the given indices with the given values,
    /// then continues to the node at the final index. Always locking.
    Setter(Vec<usize>, Vec<Variable>, usize),
}

/// Whether a node suppresses pending resets: locking states do, setters
/// always do (so a reset cannot re-enter the same setter mid-write).
pub open spec fn spec_is_locking(n: NodeType) -> bool {
    match n {
        NodeType::State(_, _, locking) => locking,
        NodeType::Setter(..) => true,
        _ => false,
    }
}

impl NodeType {
    pub fn is_locking(&self) -> (r: bool)
        ensures
            r == spec_is_locking(*self),
    {
        match self {
            NodeType::State(_, _, locking) => *locking,
            NodeType::Setter(..) => true,
            _ => false,
        }
    }
}

} // verus!
