//! The library's laws: properties of the evaluator and scheduler that hold
//! for every well-formed graph, stated and proved over the abstract model.

use crate::graph::{
    canonical_domain, case_matches, first_match, is_canonical_cases, is_canonical_nodes,
    lemma_apply_setter_preserves, lemma_first_match_from, spec_anim_lookup, spec_apply_setter,
    spec_current_animation, spec_step, spec_walk, GraphModel, StepOutcome, WalkOutcome,
};
use crate::node::{spec_is_locking, NodeType};
use crate::variable::{wild_eq, VarVal, Variable};
use vstd::prelude::*;

verus! {

/// Wildcard equality: the wildcard compares equal to every variable value,
/// on either side.
pub proof fn lemma_wildcard_equality(v: Variable)
    ensures
        wild_eq(VarVal::Any, v@),
        wild_eq(v@, VarVal::Any),
{
}

/// Switch determinism: scanning a case table against fixed live values is a
/// pure function of the table and the values, and it selects exactly the
/// first matching case in declaration order — every earlier case fails to
/// match. Re-evaluating the same switch against the same values therefore
/// selects the same case and the same target.
pub proof fn lemma_switch_determinism(
    cases: Seq<Vec<Variable>>,
    inputs: Vec<usize>,
    vars: Seq<VarVal>,
)
    ensures
        match first_match(cases, inputs, vars) {
            Some(i) => 0 <= i < cases.len() && case_matches(cases[i], inputs, vars) && (forall|
                j: int,
            |
                0 <= j < i ==> !case_matches(#[trigger] cases[j], inputs, vars)),
            None => forall|j: int|
                0 <= j < cases.len() ==> !case_matches(#[trigger] cases[j], inputs, vars),
        },
{
    lemma_first_match_from(cases, inputs, vars, 0);
}

/// Switch exhaustiveness: the canonical case table covers every combination
/// of the variables' domains (three horizontal directions, two vertical
/// directions, two flags each), so scanning it always finds a matching case
/// and evaluating the canonical switch never fails.
pub proof fn lemma_canonical_switch_exhaustive(
    inputs: Vec<usize>,
    cases: Seq<Vec<Variable>>,
    vars: Seq<VarVal>,
)
    requires
        inputs@ == seq![0usize, 1usize, 2usize, 3usize],
        is_canonical_cases(cases),
        canonical_domain(vars),
    ensures
        first_match(cases, inputs, vars) is Some,
{
    let dx = vars[0];
    let dy = vars[1];
    let walking = vars[2];
    let attacking = vars[3];
    let j: int = if attacking == VarVal::Bool(true) {
        if dx == VarVal::Enum("none"@) {
            if dy == VarVal::Enum("down"@) {
                12
            } else {
                13
            }
        } else if dx == VarVal::Enum("left"@) {
            14
        } else {
            15
        }
    } else if walking == VarVal::Bool(true) {
        if dx == VarVal::Enum("none"@) {
            if dy == VarVal::Enum("down"@) {
                6
            } else {
                7
            }
        } else if dx == VarVal::Enum("left"@) {
            if dy == VarVal::Enum("down"@) {
                9
            } else {
                8
            }
        } else {
            if dy == VarVal::Enum("down"@) {
                11
            } else {
                10
            }
        }
    } else {
        if dx == VarVal::Enum("none"@) {
            if dy == VarVal::Enum("down"@) {
                0
            } else {
                1
            }
        } else if dx == VarVal::Enum("left"@) {
            if dy == VarVal::Enum("down"@) {
                3
            } else {
                2
            }
        } else {
            if dy == VarVal::Enum("down"@) {
                5
            } else {
                4
            }
        }
    };
    assert(case_matches(cases[j], inputs, vars)) by {
        assert forall|k: int| 0 <= k < cases[j]@.len() implies wild_eq(
            (#[trigger] cases[j]@[k])@,
            vars[inputs@[k] as int],
        ) by {
            if k == 0 {
            } else if k == 1 {
            } else if k == 2 {
            } else {
                assert(k == 3);
            }
        }
    }
    lemma_first_match_from(cases, inputs, vars, 0);
}

/// From the root, the canonical graph's walk reaches a frame-emitting state
/// within three hops (root, switch, state) whenever the live variables stay
/// in their domains: the walk never fails and never spins.
pub proof fn lemma_canonical_walk_emits(m: GraphModel, fuel: nat)
    requires
        m.wf(),
        is_canonical_nodes(m.nodes),
        canonical_domain(m.variables),
        m.current_node == 0,
        fuel >= 3,
    ensures
        spec_walk(m, fuel).outcome is Frame,
{
    reveal_with_fuel(spec_walk, 4);
    // hop one: the root redirects to the switch
    let m1 = GraphModel { previous_node: 0, current_node: 1, ..m };
    assert(spec_walk(m, fuel) == spec_walk(m1, (fuel - 1) as nat));
    // hop two: the switch matches some case and targets a state node
    match m.nodes[1] {
        NodeType::Switch { variables, cases, result } => {
            lemma_canonical_switch_exhaustive(variables, cases@, m.variables);
            match first_match(cases@, variables, m.variables) {
                Some(i) => {
                    lemma_first_match_from(cases@, variables, m.variables, 0);
                    let target = result@[i] as int;
                    assert(2 <= target <= 13) by {
                        assert(result@ == seq![
                            2usize,
                            5usize,
                            3usize,
                            3usize,
                            4usize,
                            4usize,
                            6usize,
                            9usize,
                            7usize,
                            7usize,
                            8usize,
                            8usize,
                            10usize,
                            13usize,
                            11usize,
                            12usize,
                        ]);
                    }
                    let m2 = GraphModel { current_node: target, ..m1 };
                    assert(spec_walk(m1, (fuel - 1) as nat) == spec_walk(m2, (fuel - 2) as nat));
                    // hop three: the target is a state naming a known
                    // animation, so it emits
                    assert(m.nodes[target] is State);
                    assert(m2.node_wf(m2.nodes[target]));
                    assert(spec_walk(m2, (fuel - 2) as nat).outcome is Frame);
                },
                None => {
                    assert(false);
                },
            }
        },
        _ => {
            assert(false);
        },
    }
}

/// The evaluator walk preserves well-formedness and touches nothing but the
/// node cursors, the frame cursor and the variable values.
pub proof fn lemma_walk_preserves(m: GraphModel, fuel: nat)
    requires
        m.wf(),
    ensures
        ({
            let w = spec_walk(m, fuel);
            &&& w.state.wf()
            &&& w.state.nodes == m.nodes
            &&& w.state.animations == m.animations
            &&& w.state.name_to_variable == m.name_to_variable
            &&& w.state.timer == m.timer
            &&& w.state.reseted == m.reseted
            &&& w.state.variables.len() == m.variables.len()
            &&& !(w.outcome is Stuck)
        }),
    decreases fuel,
{
    if 0 <= m.current_node < m.nodes.len() && fuel > 0 {
        match m.nodes[m.current_node] {
            NodeType::Root(next) => {
                let m1 = GraphModel {
                    previous_node: m.current_node,
                    current_node: next as int,
                    ..m
                };
                assert(m1.wf());
                lemma_walk_preserves(m1, (fuel - 1) as nat);
            },
            NodeType::State(name, next, _locking) => {
                assert(m.node_wf(m.nodes[m.current_node]));
            },
            NodeType::Switch { variables, cases, result } => {
                assert(m.node_wf(m.nodes[m.current_node]));
                match first_match(cases@, variables, m.variables) {
                    Some(i) => {
                        lemma_first_match_from(cases@, variables, m.variables, 0);
                        let m1 = GraphModel { current_node: result@[i] as int, ..m };
                        assert(m1.wf());
                        lemma_walk_preserves(m1, (fuel - 1) as nat);
                    },
                    None => {},
                }
            },
            NodeType::Setter(targets, values, next) => {
                assert(m.node_wf(m.nodes[m.current_node]));
                lemma_apply_setter_preserves(m.variables, targets@, values@);
                let m1 = GraphModel {
                    variables: spec_apply_setter(m.variables, targets@, values@),
                    current_node: next as int,
                    ..m
                };
                assert(m1.wf());
                lemma_walk_preserves(m1, (fuel - 1) as nat);
            },
        }
    }
}

/// Frame range containment: every frame the evaluator walk emits lies within
/// the frame range `[start, start + count - 1]` of the state node that
/// emitted it.
pub proof fn lemma_frame_range_containment(m: GraphModel, fuel: nat)
    requires
        m.wf(),
    ensures
        ({
            let w = spec_walk(m, fuel);
            w.outcome matches WalkOutcome::Frame { emitter, frame } ==> {
                &&& 0 <= emitter < m.nodes.len()
                &&& m.nodes[emitter] matches NodeType::State(name, _, _)
                &&& spec_anim_lookup(m.animations, name@) matches Some(a) && a.start <= frame
                    <= a.start + a.count - 1
            }
        }),
    decreases fuel,
{
    if 0 <= m.current_node < m.nodes.len() && fuel > 0 {
        match m.nodes[m.current_node] {
            NodeType::Root(next) => {
                let m1 = GraphModel {
                    previous_node: m.current_node,
                    current_node: next as int,
                    ..m
                };
                assert(m1.wf());
                lemma_frame_range_containment(m1, (fuel - 1) as nat);
            },
            NodeType::State(name, next, _locking) => {
                assert(m.node_wf(m.nodes[m.current_node]));
            },
            NodeType::Switch { variables, cases, result } => {
                assert(m.node_wf(m.nodes[m.current_node]));
                match first_match(cases@, variables, m.variables) {
                    Some(i) => {
                        lemma_first_match_from(cases@, variables, m.variables, 0);
                        let m1 = GraphModel { current_node: result@[i] as int, ..m };
                        assert(m1.wf());
                        lemma_frame_range_containment(m1, (fuel - 1) as nat);
                    },
                    None => {},
                }
            },
            NodeType::Setter(targets, values, next) => {
                assert(m.node_wf(m.nodes[m.current_node]));
                lemma_apply_setter_preserves(m.variables, targets@, values@);
                let m1 = GraphModel {
                    variables: spec_apply_setter(m.variables, targets@, values@),
                    current_node: next as int,
                    ..m
                };
                assert(m1.wf());
                lemma_frame_range_containment(m1, (fuel - 1) as nat);
            },
        }
    }
}

/// Frame range containment, lifted to a scheduler tick: every frame a tick
/// returns lies within the frame range of the state that emitted it.
pub proof fn lemma_step_frame_range(m: GraphModel, delta: u64)
    requires
        m.wf(),
    ensures
        ({
            let e = spec_step(m, delta);
            e.outcome matches StepOutcome::Emitted { emitter, frame } ==> {
                &&& 0 <= emitter < m.nodes.len()
                &&& m.nodes[emitter] matches NodeType::State(name, _, _)
                &&& spec_anim_lookup(m.animations, name@) matches Some(a) && a.start <= frame
                    <= a.start + a.count - 1
            }
        }),
{
    if m.reseted && !spec_is_locking(m.nodes[m.current_node]) {
        let m1 = GraphModel { current_node: 0, next_frame_index: 0, reseted: false, ..m };
        assert(m1.wf());
        lemma_frame_range_containment(m1, m.nodes.len());
    } else {
        let t1 = m.timer.spec_ticked(delta);
        if t1.spec_finished() {
            let m1 = GraphModel { timer: t1, ..m };
            assert(m1.wf());
            lemma_frame_range_containment(m1, m.nodes.len());
        }
    }
}

/// Idempotent re-evaluation: after a zero-delta tick with no variable change
/// pending, a second zero-delta tick yields nothing and changes nothing, as
/// long as the per-frame timer has not elapsed.
pub proof fn lemma_idempotent_reevaluation(m: GraphModel)
    requires
        m.wf(),
        !m.reseted,
    ensures
        ({
            let e1 = spec_step(m, 0);
            e1.state.timer.elapsed < e1.state.timer.duration ==> {
                &&& spec_step(e1.state, 0).outcome is Idle
                &&& spec_step(e1.state, 0).state == e1.state
            }
        }),
{
    let t1 = m.timer.spec_ticked(0);
    if t1.spec_finished() {
        let m1 = GraphModel { timer: t1, ..m };
        assert(m1.wf());
        lemma_walk_preserves(m1, m.nodes.len());
    }
    let e1 = spec_step(m, 0);
    if e1.state.timer.elapsed < e1.state.timer.duration {
        assert(!e1.state.reseted);
        assert(e1.state.wf());
        assert(e1.state.timer.spec_ticked(0) == e1.state.timer);
        assert(spec_step(e1.state, 0).state == e1.state);
    }
}

/// Locking preserves completion: while a locking state is active and a
/// variable change is pending, a tick never consumes the reset; any frame it
/// emits is emitted by that same locking state, inside its own range, and
/// control leaves the state only on the tick that exhausts its final frame.
pub proof fn lemma_locking_preserves_completion(m: GraphModel, delta: u64)
    requires
        m.wf(),
        m.reseted,
        m.nodes[m.current_node] matches NodeType::State(name, next, locking) && locking,
    ensures
        ({
            let e = spec_step(m, delta);
            &&& e.state.reseted
            &&& e.state.nodes == m.nodes
            &&& (e.outcome is Idle ==> e.state.current_node == m.current_node
                && e.state.variables == m.variables)
            &&& (e.outcome matches StepOutcome::Emitted { emitter, frame } ==> {
                &&& emitter == m.current_node
                &&& m.nodes[m.current_node] matches NodeType::State(name, _, _)
                &&& spec_anim_lookup(m.animations, name@) matches Some(a) && a.start <= frame
                    <= a.start + a.count - 1 && (frame < a.start + a.count - 1
                    ==> e.state.current_node == m.current_node)
            })
        }),
{
    assert(spec_is_locking(m.nodes[m.current_node]));
    let t1 = m.timer.spec_ticked(delta);
    if t1.spec_finished() {
        let m1 = GraphModel { timer: t1, ..m };
        assert(m1.wf());
        assert(m1.node_wf(m1.nodes[m1.current_node]));
        lemma_walk_preserves(m1, m.nodes.len());
    }
}

/// Timer overshoot conservation: when a tick completes the per-frame timer
/// and the walk stops at a state node, the re-armed timer starts pre-elapsed
/// by exactly the amount by which the finished timer overshot its duration,
/// and counts down the newly active state's per-frame duration. Over many
/// ticks the average frame duration therefore converges to the per-frame
/// duration.
pub proof fn lemma_timer_overshoot_conservation(m: GraphModel, delta: u64)
    requires
        m.wf(),
        !(m.reseted && !spec_is_locking(m.nodes[m.current_node])),
        m.timer.elapsed + delta <= u64::MAX,
        m.timer.elapsed + delta >= m.timer.duration,
    ensures
        ({
            let e = spec_step(m, delta);
            let w = spec_walk(
                GraphModel { timer: m.timer.spec_ticked(delta), ..m },
                m.nodes.len(),
            );
            spec_current_animation(w.state) matches Some(a) ==> {
                &&& e.state.timer.elapsed == m.timer.elapsed + delta - m.timer.duration
                &&& e.state.timer.duration == a.animation_duration as int / a.count as int
            }
        }),
{
    let t1 = m.timer.spec_ticked(delta);
    assert(t1.spec_finished());
    let m1 = GraphModel { timer: t1, ..m };
    assert(m1.wf());
    lemma_walk_preserves(m1, m.nodes.len());
    let w = spec_walk(m1, m.nodes.len());
    match spec_current_animation(w.state) {
        Some(a) => {
            assert(w.state.node_wf(w.state.nodes[w.state.current_node]));
            assert(a.inv());
        },
        None => {},
    }
}

} // verus!
