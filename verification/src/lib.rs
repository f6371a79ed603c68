//! A deterministic, data-driven animation graph: once per simulation tick it
//! decides which sprite frame a character should display, from a small set of
//! named variables (movement direction, walking flag, attacking flag).
//!
//! The graph is an arena of nodes (root, state, switch, setter) addressed by
//! index. An evaluator walks the arena from the current position until it
//! reaches a frame-emitting state node; a frame scheduler converts elapsed
//! time (integer microseconds) into "advance one frame" events, carrying
//! timer overshoot forward so timing drift does not accumulate.

pub mod animation;
pub mod error;
pub mod graph;
pub mod laws;
pub mod node;
pub mod timer;
pub mod variable;
pub mod world;

pub use animation::CharacterAnimation;
pub use error::{GameError, GraphEvaluationError};
pub use graph::CharacterAnimationGraph;
pub use node::NodeType;
pub use timer::FrameTimer;
pub use variable::Variable;
pub use world::{TileIndex, WorldReader};
