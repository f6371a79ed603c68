use animation_graph::animation::CharacterAnimation;
use animation_graph::error::GraphEvaluationError;
use animation_graph::graph::CharacterAnimationGraph;
use animation_graph::node::NodeType;
use animation_graph::variable::Variable;

const STANDING_FRAME_US: u64 = 166666;
const ATTACK_FRAME_US: u64 = 100000;

fn frame(g: &mut CharacterAnimationGraph, delta: u64) -> Option<usize> {
    g.get_next_index(delta).expect("evaluation failed")
}

// Directions none/down, not walking, not attacking: the evaluator resolves
// to the standing-front state, frames 0..=5, not mirrored.
#[test]
fn standing_front_scenario() {
    let mut g = CharacterAnimationGraph::new();
    assert_eq!(frame(&mut g, 200000), Some(0));
    let a = g.get_current_animation().expect("a state should be active");
    assert_eq!(a.start, 0);
    assert_eq!(a.count, 6);
    assert!(!a.flip_x);
    for expected in 1..=5 {
        assert_eq!(frame(&mut g, STANDING_FRAME_US), Some(expected));
    }
    // the range is exhausted; the next tick walks back through the switch
    // and starts the same state over
    assert_eq!(frame(&mut g, 0), Some(0));
}

// Setting `attacking` while standing: on the next non-locking check the
// graph transitions to attacking-front (frames 36..=39, 0.1 s per frame),
// then clears the flag through the setter and re-evaluates to standing.
#[test]
fn attack_scenario() {
    let mut g = CharacterAnimationGraph::new();
    assert_eq!(frame(&mut g, 200000), Some(0));
    g.set_variable("attacking", Variable::Bool(true));
    // the reset is consumed at once: standing-front is not locking
    assert_eq!(frame(&mut g, 0), Some(36));
    // the reset path bypasses the timer, so the previous per-frame timer is
    // still armed for the first attack frame; after it fires, the timer is
    // re-armed from the attack animation: 400 ms over 4 frames
    assert_eq!(frame(&mut g, STANDING_FRAME_US), Some(37));
    assert_eq!(g.timer.duration, ATTACK_FRAME_US);
    assert_eq!(frame(&mut g, ATTACK_FRAME_US), Some(38));
    assert_eq!(frame(&mut g, ATTACK_FRAME_US), Some(39));
    // the attack is exhausted: the setter clears the flag and the walk
    // re-evaluates to standing-front
    assert_eq!(frame(&mut g, ATTACK_FRAME_US), Some(0));
    assert!(g.variables[3] == Variable::Bool(false));
}

// directionX=left with either directionY, not walking, not attacking:
// resolves to standing-left (frames 6..=11) regardless of directionY.
#[test]
fn standing_left_scenario() {
    for direction_y in ["down", "up"] {
        let mut g = CharacterAnimationGraph::new();
        g.set_variable("directionX", Variable::Enum("left".to_string()));
        g.set_variable("directionY", Variable::Enum(direction_y.to_string()));
        assert_eq!(frame(&mut g, 0), Some(6));
        let a = g.get_current_animation().expect("a state should be active");
        assert_eq!(a.start, 6);
        assert_eq!(a.count, 6);
        assert!(!a.flip_x);
        // the reset path bypassed the timer, so the initial timer still
        // governs the first frame change; after it fires, the per-frame
        // duration of the standing state takes over
        assert_eq!(frame(&mut g, 200000), Some(7));
        for expected in 8..=11 {
            assert_eq!(frame(&mut g, STANDING_FRAME_US), Some(expected));
        }
    }
}

// Idempotent re-evaluation: with no variable change, a second zero-delta
// tick yields nothing while the timer has not elapsed.
#[test]
fn zero_delta_tick_is_idempotent() {
    let mut g = CharacterAnimationGraph::new();
    assert_eq!(frame(&mut g, 200000), Some(0));
    assert_eq!(frame(&mut g, 0), None);
    assert_eq!(frame(&mut g, 0), None);
}

// Frame range containment: while the standing-front state is active, every
// emitted frame lies in [0, 5].
#[test]
fn frames_stay_in_range() {
    let mut g = CharacterAnimationGraph::new();
    let mut emitted = 0;
    for tick in 0u64..100 {
        let delta = 50000 + (tick % 7) * 31337;
        if let Some(f) = frame(&mut g, delta) {
            assert!(f <= 5, "frame {} outside the standing-front range", f);
            emitted += 1;
        }
    }
    assert!(emitted > 10);
}

// Locking preserves completion: a variable change mid-attack does not reset
// the graph until the attack's frame range is exhausted.
#[test]
fn locking_state_completes_before_reset() {
    let mut g = CharacterAnimationGraph::new();
    assert_eq!(frame(&mut g, 200000), Some(0));
    g.set_variable("attacking", Variable::Bool(true));
    assert_eq!(frame(&mut g, 0), Some(36));
    // mid-playback variable change: the attack state is locking
    g.set_variable("directionX", Variable::Enum("right".to_string()));
    assert!(g.reseted);
    assert_eq!(frame(&mut g, STANDING_FRAME_US), Some(37));
    assert!(g.reseted, "the reset must stay pending while the attack plays");
    assert_eq!(frame(&mut g, ATTACK_FRAME_US), Some(38));
    assert_eq!(frame(&mut g, ATTACK_FRAME_US), Some(39));
    assert!(g.reseted);
    // the setter clears the attacking flag; the switch then reads the new
    // direction and resolves to standing-right (mirrored standing-left)
    assert_eq!(frame(&mut g, ATTACK_FRAME_US), Some(6));
    let a = g.get_current_animation().expect("a state should be active");
    assert!(a.flip_x);
}

// Timer overshoot conservation: a tick that overshoots the frame duration
// by some amount starts the next frame's timer pre-elapsed by that amount.
#[test]
fn overshoot_carries_into_next_frame() {
    let mut g = CharacterAnimationGraph::new();
    assert_eq!(frame(&mut g, 250000), Some(0));
    assert_eq!(g.timer.elapsed, 50000);
    assert_eq!(g.timer.duration, STANDING_FRAME_US);
    // the next frame needs only the remainder of its duration
    assert_eq!(frame(&mut g, STANDING_FRAME_US - 50000), Some(1));
    assert_eq!(g.timer.elapsed, 0);
}

// Switch determinism: identical variable values drive identical graphs
// through identical frames.
#[test]
fn equal_inputs_give_equal_frames() {
    let mut g1 = CharacterAnimationGraph::new();
    let mut g2 = CharacterAnimationGraph::new();
    for (name, value) in [
        ("directionX", Variable::Enum("right".to_string())),
        ("walking", Variable::Bool(true)),
    ] {
        g1.set_variable(name, value.clone());
        g2.set_variable(name, value);
    }
    for _ in 0..20 {
        assert_eq!(frame(&mut g1, 70000), frame(&mut g2, 70000));
    }
}

#[test]
fn initial_state_has_no_animation() {
    let g = CharacterAnimationGraph::new();
    // the walk has not run yet: the current node is the root
    assert!(g.get_current_animation().is_none());
    assert_eq!(g.current_node, 0);
    assert_eq!(g.next_frame_index, 0);
    assert!(!g.reseted);
}

#[test]
fn default_graph_matches_new() {
    let d = CharacterAnimationGraph::default();
    assert_eq!(d.current_node, 0);
    assert_eq!(d.nodes.len(), 15);
    assert_eq!(d.animations.len(), 12);
    assert_eq!(d.variables.len(), 4);
}

#[test]
fn wildcard_value_is_rejected() {
    let mut g = CharacterAnimationGraph::new();
    g.set_variable("walking", Variable::Any);
    assert!(!g.reseted);
    assert!(g.variables[2] == Variable::Bool(false));
}

#[test]
fn unknown_variable_is_ignored() {
    let mut g = CharacterAnimationGraph::new();
    g.set_variable("swimming", Variable::Bool(true));
    assert!(!g.reseted);
}

#[test]
fn unchanged_value_does_not_reset() {
    let mut g = CharacterAnimationGraph::new();
    g.set_variable("walking", Variable::Bool(false));
    assert!(!g.reseted);
    g.set_variable("walking", Variable::Bool(true));
    assert!(g.reseted);
}

// An unmatched switch surfaces as a recoverable error carrying the node and
// the observed variable snapshot; the caller can mend the variable and go
// on.
#[test]
fn unmatched_switch_is_reported() {
    let mut g = CharacterAnimationGraph::new();
    g.set_variable("directionX", Variable::Enum("sideways".to_string()));
    match g.get_next_index(0) {
        Err(GraphEvaluationError::UnmatchedSwitch { node, variables }) => {
            assert_eq!(node, 1);
            assert!(variables[0] == Variable::Enum("sideways".to_string()));
        },
        other => panic!("expected an unmatched-switch error, got {:?}", other),
    }
    // recover: put the variable back and evaluate again
    g.set_variable("directionX", Variable::Enum("none".to_string()));
    assert_eq!(frame(&mut g, 0), Some(0));
}

// A topology that cycles without reaching a state node is well formed, but
// evaluating it is reported instead of spinning forever.
#[test]
fn cyclic_walk_is_reported() {
    let mut g = CharacterAnimationGraph::from_parts(
        vec![],
        vec![],
        vec![],
        vec![NodeType::Root(1), NodeType::Setter(vec![], vec![], 0)],
        0,
    )
    .expect("the cyclic topology is structurally sound");
    match g.get_next_index(1) {
        Err(GraphEvaluationError::CyclicWalk { .. }) => {},
        other => panic!("expected a cyclic-walk error, got {:?}", other),
    }
}

// A custom topology built from parts runs like any other graph.
#[test]
fn custom_graph_runs() {
    let mut g = CharacterAnimationGraph::from_parts(
        vec![("blink".to_string(), CharacterAnimation::new(4, 2, false, 1000))],
        vec![],
        vec![],
        vec![NodeType::Root(1), NodeType::State("blink".to_string(), 1, false)],
        500,
    )
    .expect("a sound topology");
    assert_eq!(g.get_next_index(500).expect("no switches to fail"), Some(4));
    assert_eq!(g.get_next_index(500).expect("no switches to fail"), Some(5));
    // the range is exhausted; the walk passes back through the root
    assert_eq!(g.get_next_index(500).expect("no switches to fail"), Some(4));
}

// Malformed topologies are rejected when the graph is built, not during
// evaluation.
#[test]
fn malformed_topologies_are_rejected() {
    let anim = |count: usize| vec![("a".to_string(), CharacterAnimation::new(0, count, false, 100))];
    let state = || NodeType::State("a".to_string(), 0, false);

    // no nodes at all
    assert!(CharacterAnimationGraph::from_parts(vec![], vec![], vec![], vec![], 1).is_err());
    // the entry node is not the root
    assert!(
        CharacterAnimationGraph::from_parts(anim(2), vec![], vec![], vec![state()], 1).is_err()
    );
    // a second root
    let two_roots = vec![NodeType::Root(1), NodeType::Root(0)];
    assert!(CharacterAnimationGraph::from_parts(vec![], vec![], vec![], two_roots, 1).is_err());
    // the root points outside the graph
    let dangling = vec![NodeType::Root(7)];
    assert!(CharacterAnimationGraph::from_parts(vec![], vec![], vec![], dangling, 1).is_err());
    // a state names an unknown animation
    let unknown = vec![NodeType::Root(1), NodeType::State("b".to_string(), 0, false)];
    assert!(CharacterAnimationGraph::from_parts(anim(2), vec![], vec![], unknown, 1).is_err());
    // a state's animation has no frames
    let nodes = vec![NodeType::Root(1), state()];
    assert!(CharacterAnimationGraph::from_parts(anim(0), vec![], vec![], nodes, 1).is_err());
    // a switch case whose arity does not match its inputs
    let bad_switch = vec![
        NodeType::Root(1),
        NodeType::Switch { variables: vec![0], cases: vec![vec![]], result: vec![0] },
    ];
    let vars = vec![Variable::Bool(false)];
    assert!(
        CharacterAnimationGraph::from_parts(vec![], vec![], vars.clone(), bad_switch, 1).is_err()
    );
    // a switch reading a variable slot that does not exist
    let bad_input = vec![
        NodeType::Root(1),
        NodeType::Switch {
            variables: vec![3],
            cases: vec![vec![Variable::Any]],
            result: vec![0],
        },
    ];
    assert!(
        CharacterAnimationGraph::from_parts(vec![], vec![], vars.clone(), bad_input, 1).is_err()
    );
    // a setter with as many values as targets is required
    let bad_setter = vec![NodeType::Root(1), NodeType::Setter(vec![0], vec![], 0)];
    assert!(
        CharacterAnimationGraph::from_parts(vec![], vec![], vars.clone(), bad_setter, 1).is_err()
    );
    // a stored wildcard
    let any_var = vec![Variable::Any];
    assert!(
        CharacterAnimationGraph::from_parts(vec![], vec![], any_var, vec![NodeType::Root(0)], 1)
            .is_err()
    );
    // a name bound to a slot that does not exist
    let bad_name = vec![("walking".to_string(), 9)];
    assert!(
        CharacterAnimationGraph::from_parts(vec![], bad_name, vars, vec![NodeType::Root(0)], 1)
            .is_err()
    );
}
