//! The character animation graph: the node arena, the live variables, the
//! per-instance cursor state, and the evaluator and frame scheduler that
//! drive it.

use crate::animation::CharacterAnimation;
use crate::error::{GameError, GraphEvaluationError};
use crate::node::{spec_is_locking, NodeType};
use crate::timer::FrameTimer;
use crate::variable::{wild_eq, VarVal, Variable};
use vstd::prelude::*;

verus! {

/// The abstract state of a [`CharacterAnimationGraph`]: the same data with
/// every variable replaced by its abstract value and every index widened to
/// a mathematical integer.
#[verifier::ext_equal]
pub struct GraphModel {
    pub animations: Seq<(String, CharacterAnimation)>,
    pub name_to_variable: Seq<(String, usize)>,
    pub variables: Seq<VarVal>,
    pub nodes: Seq<NodeType>,
    pub previous_node: int,
    pub current_node: int,
    pub next_frame_index: int,
    pub timer: FrameTimer,
    pub reseted: bool,
}

/// The abstract values of a variable vector.
pub open spec fn vars_view(vs: Seq<Variable>) -> Seq<VarVal> {
    vs.map_values(|v: Variable| v@)
}

/// First-match lookup of an animation descriptor by state name.
pub open spec fn spec_anim_lookup(
    s: Seq<(String, CharacterAnimation)>,
    name: Seq<char>,
) -> Option<CharacterAnimation>
    decreases s.len(),
{
    if s.len() == 0 {
        None
    } else if s[0].0@ == name {
        Some(s[0].1)
    } else {
        spec_anim_lookup(s.skip(1), name)
    }
}

/// First-match lookup of a variable slot by variable name.
pub open spec fn spec_name_lookup(s: Seq<(String, usize)>, name: Seq<char>) -> Option<usize>
    decreases s.len(),
{
    if s.len() == 0 {
        None
    } else if s[0].0@ == name {
        Some(s[0].1)
    } else {
        spec_name_lookup(s.skip(1), name)
    }
}

/// A case matches when every one of its patterns equals (wildcard-aware) the
/// live value of the corresponding input slot.
pub open spec fn case_matches(case: Vec<Variable>, inputs: Vec<usize>, vars: Seq<VarVal>) -> bool {
    forall|k: int|
        0 <= k < case@.len() ==> wild_eq((#[trigger] case@[k])@, vars[inputs@[k] as int])
}

/// The index of the first matching case at or after position `i`.
pub open spec fn first_match_from(
    cases: Seq<Vec<Variable>>,
    inputs: Vec<usize>,
    vars: Seq<VarVal>,
    i: int,
) -> Option<int>
    decreases cases.len() - i,
{
    if i < 0 || i >= cases.len() {
        None
    } else if case_matches(cases[i], inputs, vars) {
        Some(i)
    } else {
        first_match_from(cases, inputs, vars, i + 1)
    }
}

/// The index of the first case that matches the live variables, scanning in
/// declaration order.
pub open spec fn first_match(
    cases: Seq<Vec<Variable>>,
    inputs: Vec<usize>,
    vars: Seq<VarVal>,
) -> Option<int> {
    first_match_from(cases, inputs, vars, 0)
}

/// The variable vector after a setter writes its values: pair by pair, each
/// in-range target takes the corresponding value, except that a wildcard
/// value is refused and only that one assignment is skipped.
pub open spec fn spec_apply_setter(
    vars: Seq<VarVal>,
    targets: Seq<usize>,
    values: Seq<Variable>,
) -> Seq<VarVal>
    decreases targets.len(),
{
    if targets.len() == 0 || values.len() == 0 {
        vars
    } else {
        let v1 = if targets[0] < vars.len() && !(values[0]@ is Any) {
            vars.update(targets[0] as int, values[0]@)
        } else {
            vars
        };
        spec_apply_setter(v1, targets.skip(1), values.skip(1))
    }
}

impl GraphModel {
    /// Structural conditions on one node: every index it holds refers into
    /// the node or variable sequence, a switch's case table is rectangular
    /// with one pattern per input, and a state names a known animation.
    pub open spec fn node_wf(self, n: NodeType) -> bool {
        match n {
            NodeType::Root(next) => next < self.nodes.len(),
            NodeType::State(name, next, _locking) => {
                &&& next < self.nodes.len()
                &&& spec_anim_lookup(self.animations, name@) matches Some(a) && a.inv()
            },
            NodeType::Switch { variables, cases, result } => {
                &&& result@.len() == cases@.len()
                &&& forall|i: int|
                    0 <= i < variables@.len() ==> (#[trigger] variables@[i]) < self.variables.len()
                &&& forall|i: int|
                    0 <= i < cases@.len() ==> (#[trigger] cases@[i])@.len() == variables@.len()
                &&& forall|i: int|
                    0 <= i < result@.len() ==> (#[trigger] result@[i]) < self.nodes.len()
            },
            NodeType::Setter(targets, values, next) => {
                &&& next < self.nodes.len()
                &&& values@.len() == targets@.len()
                &&& forall|i: int|
                    0 <= i < targets@.len() ==> (#[trigger] targets@[i]) < self.variables.len()
            },
        }
    }

    /// The frame cursor, when nonzero, lies within the frame range of the
    /// currently active state.
    pub open spec fn cursor_wf(self) -> bool {
        self.next_frame_index != 0 ==> {
            &&& self.nodes[self.current_node] matches NodeType::State(name, _, _)
            &&& spec_anim_lookup(self.animations, name@) matches Some(a)
                && a.start <= self.next_frame_index < a.start + a.count
        }
    }

    /// Well-formedness of the whole graph: one root node at the entry index,
    /// every node structurally sound, the cursors in range, no wildcard
    /// stored in the variable vector, every named slot valid, and the frame
    /// cursor inside the active state's range.
    pub open spec fn wf(self) -> bool {
        &&& self.nodes.len() > 0
        &&& self.nodes[0] is Root
        &&& forall|i: int| 1 <= i < self.nodes.len() ==> !((#[trigger] self.nodes[i]) is Root)
        &&& forall|i: int| 0 <= i < self.nodes.len() ==> self.node_wf(#[trigger] self.nodes[i])
        &&& 0 <= self.current_node < self.nodes.len()
        &&& 0 <= self.previous_node < self.nodes.len()
        &&& 0 <= self.next_frame_index
        &&& forall|i: int| 0 <= i < self.variables.len() ==> !((#[trigger] self.variables[i]) is Any)
        &&& forall|i: int|
            0 <= i < self.name_to_variable.len() ==> (#[trigger] self.name_to_variable[i]).1
                < self.variables.len()
        &&& self.cursor_wf()
    }
}

/// A character's animation graph: the fixed topology (nodes, animation
/// descriptors, variable names) plus the per-instance mutable state (live
/// variable values, node cursors, frame cursor, timer, pending-reset flag).
///
/// Every constructor hands out a well-formed graph (see [`GraphModel::wf`])
/// and every method preserves well-formedness, so the methods' requirement
/// holds along any client call sequence.
#[derive(Debug)]
pub struct CharacterAnimationGraph {
    pub animations: Vec<(String, CharacterAnimation)>,
    pub name_to_variable: Vec<(String, usize)>,
    pub variables: Vec<Variable>,

    pub nodes: Vec<NodeType>,
    pub previous_node: usize,
    pub current_node: usize,
    pub next_frame_index: usize,

    pub timer: FrameTimer,

    pub reseted: bool,
}

impl View for CharacterAnimationGraph {
    type V = GraphModel;

    open spec fn view(&self) -> GraphModel {
        GraphModel {
            animations: self.animations@,
            name_to_variable: self.name_to_variable@,
            variables: vars_view(self.variables@),
            nodes: self.nodes@,
            previous_node: self.previous_node as int,
            current_node: self.current_node as int,
            next_frame_index: self.next_frame_index as int,
            timer: self.timer,
            reseted: self.reseted,
        }
    }
}

/// The position of the first animation entry whose name is `name`.
fn find_animation_index(
    anims: &Vec<(String, CharacterAnimation)>,
    name: &String,
) -> (r: Option<usize>)
    ensures
        match r {
            Some(i) => i < anims@.len() && spec_anim_lookup(anims@, name@) == Some(
                anims@[i as int].1,
            ),
            None => spec_anim_lookup(anims@, name@) is None,
        },
{
    let n = anims.len();
    let mut i: usize = 0;
    assert(anims@.skip(0) =~= anims@);
    while i < n
        invariant
            n == anims@.len(),
            i <= n,
            spec_anim_lookup(anims@, name@) == spec_anim_lookup(anims@.skip(i as int), name@),
        decreases n - i,
    {
        if anims[i].0 == *name {
            assert(anims@.skip(i as int)[0] == anims@[i as int]);
            return Some(i);
        }
        assert(anims@.skip(i as int)[0] == anims@[i as int]);
        assert(anims@.skip(i as int).skip(1) =~= anims@.skip(i as int + 1));
        i = i + 1;
    }
    assert(anims@.skip(i as int).len() == 0);
    None
}

/// The variable slot bound to `name`, if the name is known.
fn find_variable_index(map: &Vec<(String, usize)>, name: &String) -> (r: Option<usize>)
    ensures
        r == spec_name_lookup(map@, name@),
{
    let n = map.len();
    let mut i: usize = 0;
    assert(map@.skip(0) =~= map@);
    while i < n
        invariant
            n == map@.len(),
            i <= n,
            spec_name_lookup(map@, name@) == spec_name_lookup(map@.skip(i as int), name@),
        decreases n - i,
    {
        if map[i].0 == *name {
            assert(map@.skip(i as int)[0] == map@[i as int]);
            return Some(map[i].1);
        }
        assert(map@.skip(i as int)[0] == map@[i as int]);
        assert(map@.skip(i as int).skip(1) =~= map@.skip(i as int + 1));
        i = i + 1;
    }
    assert(map@.skip(i as int).len() == 0);
    None
}

/// How one evaluator walk ended.
pub enum WalkOutcome {
    /// The walk reached the state node `emitter`, which emitted `frame`.
    Frame { emitter: int, frame: int },
    /// A switch node matched none of its cases.
    NoMatch { node: int },
    /// The walk visited more nodes than the graph holds without reaching a
    /// state node.
    Spin { node: int },
    /// The walk cannot proceed: a node index out of range or a state naming
    /// an unknown animation. Never reached from a well-formed graph.
    Stuck { node: int },
}

/// The state in which a walk ended, together with its outcome.
#[verifier::ext_equal]
pub struct WalkEnd {
    pub state: GraphModel,
    pub outcome: WalkOutcome,
}

/// The evaluator walk: starting at the current node, follow root, switch and
/// setter nodes (updating the variables as setters are crossed) until a
/// state node emits a frame, an unmatched switch fails, or the fuel runs
/// out. The timer and the pending-reset flag are untouched.
///
/// The evaluator runs this walk with one unit of fuel per node of the graph.
/// That budget admits every walk that visits no node twice; a topology whose
/// setters legitimately make a walk revisit nodes must still reach a state
/// within the budget, or the walk ends in `Spin`.
pub open spec fn spec_walk(m: GraphModel, fuel: nat) -> WalkEnd
    decreases fuel,
{
    if !(0 <= m.current_node < m.nodes.len()) {
        WalkEnd { state: m, outcome: WalkOutcome::Stuck { node: m.current_node } }
    } else if fuel == 0 {
        WalkEnd { state: m, outcome: WalkOutcome::Spin { node: m.current_node } }
    } else {
        match m.nodes[m.current_node] {
            NodeType::Root(next) => spec_walk(
                GraphModel {
                    previous_node: m.current_node,
                    current_node: next as int,
                    ..m
                },
                (fuel - 1) as nat,
            ),
            NodeType::State(name, next, _locking) => match spec_anim_lookup(
                m.animations,
                name@,
            ) {
                Some(a) => {
                    let cur = if m.next_frame_index < a.start {
                        a.start as int
                    } else {
                        m.next_frame_index
                    };
                    if cur + 1 > a.start + a.count - 1 {
                        // the range is exhausted: move on to the successor
                        WalkEnd {
                            state: GraphModel {
                                next_frame_index: 0,
                                current_node: next as int,
                                ..m
                            },
                            outcome: WalkOutcome::Frame { emitter: m.current_node, frame: cur },
                        }
                    } else {
                        WalkEnd {
                            state: GraphModel { next_frame_index: cur + 1, ..m },
                            outcome: WalkOutcome::Frame { emitter: m.current_node, frame: cur },
                        }
                    }
                },
                None => WalkEnd { state: m, outcome: WalkOutcome::Stuck { node: m.current_node } },
            },
            NodeType::Switch { variables, cases, result } => match first_match(
                cases@,
                variables,
                m.variables,
            ) {
                Some(i) => spec_walk(
                    GraphModel { current_node: result@[i] as int, ..m },
                    (fuel - 1) as nat,
                ),
                None => WalkEnd {
                    state: m,
                    outcome: WalkOutcome::NoMatch { node: m.current_node },
                },
            },
            NodeType::Setter(targets, values, next) => spec_walk(
                GraphModel {
                    variables: spec_apply_setter(m.variables, targets@, values@),
                    current_node: next as int,
                    ..m
                },
                (fuel - 1) as nat,
            ),
        }
    }
}

/// The position of the first case (at or after `start`) that matches the
/// live variables gathered through `inputs`.
fn find_switch_case(
    inputs: &Vec<usize>,
    cases: &Vec<Vec<Variable>>,
    vars: &Vec<Variable>,
) -> (r: Option<usize>)
    requires
        forall|k: int| 0 <= k < inputs@.len() ==> (#[trigger] inputs@[k]) < vars@.len(),
        forall|i: int| 0 <= i < cases@.len() ==> (#[trigger] cases@[i])@.len() == inputs@.len(),
    ensures
        match r {
            Some(i) => first_match(cases@, *inputs, vars_view(vars@)) == Some(i as int),
            None => first_match(cases@, *inputs, vars_view(vars@)) is None,
        },
{
    let n = cases.len();
    let mut i: usize = 0;
    while i < n
        invariant
            n == cases@.len(),
            i <= n,
            forall|k: int| 0 <= k < inputs@.len() ==> (#[trigger] inputs@[k]) < vars@.len(),
            forall|j: int| 0 <= j < cases@.len() ==> (#[trigger] cases@[j])@.len() == inputs@.len(),
            first_match(cases@, *inputs, vars_view(vars@)) == first_match_from(
                cases@,
                *inputs,
                vars_view(vars@),
                i as int,
            ),
        decreases n - i,
    {
        let width = inputs.len();
        let mut k: usize = 0;
        let mut matched = true;
        while k < width && matched
            invariant
                width == inputs@.len(),
                k <= width,
                forall|k2: int| 0 <= k2 < inputs@.len() ==> (#[trigger] inputs@[k2]) < vars@.len(),
                i < cases@.len(),
                cases@[i as int]@.len() == inputs@.len(),
                matched ==> forall|k2: int|
                    0 <= k2 < k ==> wild_eq(
                        (#[trigger] cases@[i as int]@[k2])@,
                        vars_view(vars@)[inputs@[k2] as int],
                    ),
                !matched ==> !case_matches(cases@[i as int], *inputs, vars_view(vars@)),
            decreases width - k,
        {
            let slot = inputs[k];
            if !(cases[i][k] == vars[slot]) {
                proof {
                    assert(!wild_eq(cases@[i as int]@[k as int]@, vars@[slot as int]@));
                    assert(vars_view(vars@)[slot as int] == vars@[slot as int]@);
                }
                matched = false;
            }
            k = k + 1;
        }
        if matched {
            proof {
                assert(case_matches(cases@[i as int], *inputs, vars_view(vars@)));
            }
            return Some(i);
        }
        i = i + 1;
    }
    None
}

/// A copy of the variable vector with the same abstract values.
fn duplicate_variables(vars: &Vec<Variable>) -> (r: Vec<Variable>)
    ensures
        vars_view(r@) == vars_view(vars@),
{
    let n = vars.len();
    let mut r: Vec<Variable> = Vec::new();
    let mut i: usize = 0;
    while i < n
        invariant
            n == vars@.len(),
            i <= n,
            r@.len() == i,
            forall|j: int| 0 <= j < i ==> (#[trigger] r@[j])@ == vars@[j]@,
        decreases n - i,
    {
        r.push(vars[i].duplicate());
        i = i + 1;
    }
    proof {
        assert(vars_view(r@) =~= vars_view(vars@));
    }
    r
}

/// Write a setter's values into the variable vector, pair by pair, skipping
/// any wildcard value.
fn apply_setter(vars: &mut Vec<Variable>, targets: &Vec<usize>, values: &Vec<Variable>)
    ensures
        vars_view(final(vars)@) == spec_apply_setter(vars_view(old(vars)@), targets@, values@),
        final(vars)@.len() == old(vars)@.len(),
{
    let n = if targets.len() <= values.len() {
        targets.len()
    } else {
        values.len()
    };
    let mut i: usize = 0;
    proof {
        assert(targets@.skip(0) =~= targets@);
        assert(values@.skip(0) =~= values@);
    }
    while i < n
        invariant
            n <= targets@.len(),
            n <= values@.len(),
            n == targets@.len() || n == values@.len(),
            i <= n,
            vars@.len() == old(vars)@.len(),
            spec_apply_setter(vars_view(old(vars)@), targets@, values@) == spec_apply_setter(
                vars_view(vars@),
                targets@.skip(i as int),
                values@.skip(i as int),
            ),
        decreases n - i,
    {
        let ghost pre = vars_view(vars@);
        let t = targets[i];
        if t < vars.len() {
            let v = values[i].duplicate();
            if !v.is_any() {
                vars[t] = v;
                proof {
                    assert(vars_view(vars@) =~= pre.update(t as int, values@[i as int]@));
                }
            }
        }
        proof {
            assert(targets@.skip(i as int)[0] == targets@[i as int]);
            assert(values@.skip(i as int)[0] == values@[i as int]);
            assert(targets@.skip(i as int).skip(1) =~= targets@.skip(i as int + 1));
            assert(values@.skip(i as int).skip(1) =~= values@.skip(i as int + 1));
        }
        i = i + 1;
    }
    proof {
        if i < targets@.len() {
            assert(values@.skip(i as int).len() == 0);
        } else {
            assert(targets@.skip(i as int).len() == 0);
        }
    }
}

/// `first_match_from` returns the least matching index at or after `i`, and
/// `None` exactly when no case at or after `i` matches.
pub proof fn lemma_first_match_from(
    cases: Seq<Vec<Variable>>,
    inputs: Vec<usize>,
    vars: Seq<VarVal>,
    i: int,
)
    requires
        0 <= i <= cases.len(),
    ensures
        match first_match_from(cases, inputs, vars, i) {
            Some(j) => i <= j < cases.len() && case_matches(cases[j], inputs, vars) && (forall|
                k: int,
            |
                i <= k < j ==> !case_matches(#[trigger] cases[k], inputs, vars)),
            None => forall|k: int| i <= k < cases.len() ==> !case_matches(#[trigger] cases[k], inputs, vars),
        },
    decreases cases.len() - i,
{
    if i < cases.len() {
        if !case_matches(cases[i], inputs, vars) {
            lemma_first_match_from(cases, inputs, vars, i + 1);
        }
    }
}

/// Animation lookup finds the entry at `j` when no earlier entry has the
/// same name.
pub proof fn lemma_anim_lookup_at(s: Seq<(String, CharacterAnimation)>, name: Seq<char>, j: int)
    requires
        0 <= j < s.len(),
        s[j].0@ == name,
        forall|k: int| 0 <= k < j ==> (#[trigger] s[k]).0@ != name,
    ensures
        spec_anim_lookup(s, name) == Some(s[j].1),
    decreases j,
{
    if j > 0 {
        assert(s.skip(1)[j - 1] == s[j]);
        assert forall|k: int| 0 <= k < j - 1 implies (#[trigger] s.skip(1)[k]).0@ != name by {
            assert(s.skip(1)[k] == s[k + 1]);
        }
        lemma_anim_lookup_at(s.skip(1), name, j - 1);
    }
}

/// Name lookup finds the binding at `j` when no earlier binding has the same
/// name.
pub proof fn lemma_name_lookup_at(s: Seq<(String, usize)>, name: Seq<char>, j: int)
    requires
        0 <= j < s.len(),
        s[j].0@ == name,
        forall|k: int| 0 <= k < j ==> (#[trigger] s[k]).0@ != name,
    ensures
        spec_name_lookup(s, name) == Some(s[j].1),
    decreases j,
{
    if j > 0 {
        assert(s.skip(1)[j - 1] == s[j]);
        assert forall|k: int| 0 <= k < j - 1 implies (#[trigger] s.skip(1)[k]).0@ != name by {
            assert(s.skip(1)[k] == s[k + 1]);
        }
        lemma_name_lookup_at(s.skip(1), name, j - 1);
    }
}

/// A slot found by name lookup is one of the listed bindings.
pub proof fn lemma_name_lookup_listed(s: Seq<(String, usize)>, name: Seq<char>)
    ensures
        spec_name_lookup(s, name) matches Some(i) ==> exists|j: int|
            0 <= j < s.len() && (#[trigger] s[j]).1 == i,
    decreases s.len(),
{
    if s.len() > 0 && s[0].0@ != name {
        lemma_name_lookup_listed(s.skip(1), name);
        match spec_name_lookup(s, name) {
            Some(i) => {
                let j = choose|j: int|
                    0 <= j < s.skip(1).len() && (#[trigger] s.skip(1)[j]).1 == i;
                assert(s[j + 1].1 == i);
            },
            None => {},
        }
    }
}

/// `spec_apply_setter` keeps the vector's length, and never stores a
/// wildcard.
pub proof fn lemma_apply_setter_preserves(
    vars: Seq<VarVal>,
    targets: Seq<usize>,
    values: Seq<Variable>,
)
    ensures
        spec_apply_setter(vars, targets, values).len() == vars.len(),
        (forall|i: int| 0 <= i < vars.len() ==> !((#[trigger] vars[i]) is Any)) ==> forall|i: int|
            0 <= i < vars.len() ==> !((#[trigger] spec_apply_setter(vars, targets, values)[i]) is Any),
    decreases targets.len(),
{
    if targets.len() == 0 || values.len() == 0 {
    } else {
        let v1 = if targets[0] < vars.len() && !(values[0]@ is Any) {
            vars.update(targets[0] as int, values[0]@)
        } else {
            vars
        };
        lemma_apply_setter_preserves(v1, targets.skip(1), values.skip(1));
    }
}

/// How one scheduler tick ended.
pub enum StepOutcome {
    /// The state node `emitter` emitted `frame` this tick.
    Emitted { emitter: int, frame: int },
    /// The per-frame timer has not elapsed: no frame change this tick.
    Idle,
    /// A switch node matched none of its cases.
    NoMatch { node: int },
    /// The walk visited more nodes than the graph holds without reaching a
    /// state node.
    Spin { node: int },
    /// The walk cannot proceed. Never reached from a well-formed graph.
    Stuck { node: int },
}

/// The state in which a tick ended, together with its outcome.
#[verifier::ext_equal]
pub struct StepEnd {
    pub state: GraphModel,
    pub outcome: StepOutcome,
}

pub open spec fn step_of_walk(w: WalkOutcome) -> StepOutcome {
    match w {
        WalkOutcome::Frame { emitter, frame } => StepOutcome::Emitted { emitter, frame },
        WalkOutcome::NoMatch { node } => StepOutcome::NoMatch { node },
        WalkOutcome::Spin { node } => StepOutcome::Spin { node },
        WalkOutcome::Stuck { node } => StepOutcome::Stuck { node },
    }
}

/// The animation of the node the walk stopped at, if it is a state node.
pub open spec fn spec_current_animation(m: GraphModel) -> Option<CharacterAnimation> {
    if 0 <= m.current_node < m.nodes.len() {
        match m.nodes[m.current_node] {
            NodeType::State(name, _, _) => spec_anim_lookup(m.animations, name@),
            _ => None,
        }
    } else {
        None
    }
}

/// The timer for the next frame: when the node the walk stopped at is a
/// state, a fresh timer armed with that state's per-frame duration,
/// pre-elapsed by the time the finished timer overshot its duration;
/// otherwise the old timer, still finished, so the next tick evaluates
/// immediately.
pub open spec fn spec_rearm(m: GraphModel, t: FrameTimer) -> FrameTimer {
    match spec_current_animation(m) {
        Some(a) => {
            let over = if t.elapsed >= t.duration {
                t.elapsed - t.duration
            } else {
                0
            };
            FrameTimer {
                elapsed: over as u64,
                duration: (a.animation_duration as int / a.count as int) as u64,
            }
        },
        None => t,
    }
}

/// One scheduler tick, `delta` microseconds after the previous one. If a
/// reset is pending and the current node is not locking, the walk restarts
/// from the root at once, bypassing the timer. Otherwise the timer
/// accumulates `delta`; once it completes, the evaluator runs and the timer
/// is re-armed for the newly active state with the overshoot carried over.
pub open spec fn spec_step(m: GraphModel, delta: u64) -> StepEnd {
    if !(0 <= m.current_node < m.nodes.len()) {
        StepEnd { state: m, outcome: StepOutcome::Stuck { node: m.current_node } }
    } else if m.reseted && !spec_is_locking(m.nodes[m.current_node]) {
        let w = spec_walk(
            GraphModel { current_node: 0, next_frame_index: 0, reseted: false, ..m },
            m.nodes.len(),
        );
        StepEnd { state: w.state, outcome: step_of_walk(w.outcome) }
    } else {
        let t1 = m.timer.spec_ticked(delta);
        if !t1.spec_finished() {
            StepEnd { state: GraphModel { timer: t1, ..m }, outcome: StepOutcome::Idle }
        } else {
            let w = spec_walk(GraphModel { timer: t1, ..m }, m.nodes.len());
            let t2 = spec_rearm(w.state, t1);
            StepEnd {
                state: GraphModel { timer: t2, ..w.state },
                outcome: step_of_walk(w.outcome),
            }
        }
    }
}

impl CharacterAnimationGraph {
    /// Walk the node arena from the current node until a state node emits a
    /// frame: root nodes are followed, switches branch on the live variables
    /// (first matching case wins), setters overwrite variables and continue.
    /// Returns the emitted frame, or the evaluation error when a switch
    /// matches no case or the walk cycles.
    fn eval(&mut self) -> (r: Result<usize, GraphEvaluationError>)
        requires
            old(self)@.wf(),
        ensures
            final(self)@.wf(),
            final(self)@.timer == old(self)@.timer,
            final(self)@.reseted == old(self)@.reseted,
            ({
                let w = spec_walk(old(self)@, old(self)@.nodes.len());
                &&& final(self)@ == w.state
                &&& match w.outcome {
                    WalkOutcome::Frame { emitter, frame } => r matches Ok(f) && f as int == frame,
                    WalkOutcome::NoMatch { node } => r matches Err(
                        GraphEvaluationError::UnmatchedSwitch { node: n, variables: vs },
                    ) && n as int == node && vars_view(vs@) == w.state.variables,
                    WalkOutcome::Spin { node } => r matches Err(
                        GraphEvaluationError::CyclicWalk { node: n },
                    ) && n as int == node,
                    WalkOutcome::Stuck { .. } => false,
                }
            }),
    {
        let ghost m0 = self@;
        let budget: usize = self.nodes.len();
        let mut steps: usize = 0;
        loop
            invariant
                m0 == old(self)@,
                self@.wf(),
                self@.nodes == m0.nodes,
                self@.animations == m0.animations,
                self@.name_to_variable == m0.name_to_variable,
                self@.timer == m0.timer,
                self@.reseted == m0.reseted,
                budget == m0.nodes.len(),
                steps <= budget,
                spec_walk(self@, (budget - steps) as nat) == spec_walk(m0, m0.nodes.len()),
            decreases budget - steps,
        {
            if steps >= budget {
                // the walk visited as many nodes as the graph holds without
                // reaching a state: the topology cycles
                assert(spec_walk(self@, 0) == spec_walk(m0, m0.nodes.len()));
                return Err(GraphEvaluationError::CyclicWalk { node: self.current_node });
            }
            let ghost fuel = (budget - steps) as nat;
            let ghost entry = self@;
            let node_index = self.current_node;
            match &self.nodes[node_index] {
                NodeType::Root(next) => {
                    self.previous_node = node_index;
                    self.current_node = *next;
                    proof {
                        assert(self@ =~= (GraphModel {
                            previous_node: entry.current_node,
                            current_node: entry.nodes[entry.current_node]->Root_0 as int,
                            ..entry
                        }));
                    }
                    steps = steps + 1;
                },
                NodeType::State(name, next, _locking) => {
                    match find_animation_index(&self.animations, name) {
                        Some(ai) => {
                            let anim = self.animations[ai].1;
                            if self.next_frame_index < anim.start {
                                self.next_frame_index = anim.start;
                            }
                            let current_frame = self.next_frame_index;
                            assert(current_frame < anim.start + anim.count);
                            self.next_frame_index = current_frame + 1;
                            if self.next_frame_index > anim.start + anim.count - 1 {
                                // animation finished: move to the next node
                                self.next_frame_index = 0;
                                self.current_node = *next;
                            }
                            proof {
                                let w = spec_walk(entry, fuel);
                                assert(w.outcome matches WalkOutcome::Frame { emitter, frame }
                                    && emitter == entry.current_node && frame
                                    == current_frame as int);
                                assert(self@ =~= w.state);
                            }
                            return Ok(current_frame);
                        },
                        None => {
                            // a well-formed graph names only known animations
                            proof {
                                assert(false);
                            }
                            return unreached();
                        },
                    }
                },
                NodeType::Switch { variables, cases, result } => {
                    proof {
                        lemma_first_match_from(cases@, *variables, self@.variables, 0);
                    }
                    match find_switch_case(variables, cases, &self.variables) {
                        Some(position) => {
                            self.current_node = result[position];
                            proof {
                                assert(self@ =~= (GraphModel {
                                    current_node: result@[position as int] as int,
                                    ..entry
                                }));
                            }
                            steps = steps + 1;
                        },
                        None => {
                            let snapshot = duplicate_variables(&self.variables);
                            proof {
                                let w = spec_walk(entry, fuel);
                                assert(w.outcome matches WalkOutcome::NoMatch { node } && node
                                    == entry.current_node);
                                assert(self@ =~= w.state);
                            }
                            return Err(GraphEvaluationError::UnmatchedSwitch {
                                node: node_index,
                                variables: snapshot,
                            });
                        },
                    }
                },
                NodeType::Setter(targets, values, next) => {
                    let ghost pre_vars = self@.variables;
                    apply_setter(&mut self.variables, targets, values);
                    proof {
                        lemma_apply_setter_preserves(pre_vars, targets@, values@);
                    }
                    self.current_node = *next;
                    proof {
                        assert(self@ =~= (GraphModel {
                            variables: spec_apply_setter(pre_vars, targets@, values@),
                            current_node: entry.nodes[entry.current_node]->Setter_2 as int,
                            ..entry
                        }));
                    }
                    steps = steps + 1;
                },
            }
        }
    }

    /// The animation descriptor of the current node, when it is a state
    /// node; the caller reads `flip_x` from it to mirror the sprite.
    pub fn get_current_animation(&self) -> (r: Option<&CharacterAnimation>)
        requires
            self@.wf(),
        ensures
            match r {
                Some(a) => spec_current_animation(self@) == Some(*a),
                None => spec_current_animation(self@) is None,
            },
    {
        match &self.nodes[self.current_node] {
            NodeType::State(name, _, _) => match find_animation_index(&self.animations, name) {
                Some(i) => Some(&self.animations[i].1),
                None => {
                    // a well-formed graph names only known animations
                    proof {
                        assert(false);
                    }
                    unreached()
                },
            },
            _ => None,
        }
    }
}

/// The canonical animation table: twelve descriptors, by name, frame range,
/// mirroring and total duration in microseconds.
pub open spec fn is_canonical_animations(s: Seq<(String, CharacterAnimation)>) -> bool {
    &&& s.len() == 12
    &&& s[0].0@ == "standingFront"@ && s[0].1 == (CharacterAnimation { start: 0, count: 6, flip_x: false, animation_duration: 1000000u64 })
    &&& s[1].0@ == "standingLeft"@ && s[1].1 == (CharacterAnimation { start: 6, count: 6, flip_x: false, animation_duration: 1000000u64 })
    &&& s[2].0@ == "standingRight"@ && s[2].1 == (CharacterAnimation { start: 6, count: 6, flip_x: true, animation_duration: 1000000u64 })
    &&& s[3].0@ == "standingBack"@ && s[3].1 == (CharacterAnimation { start: 12, count: 6, flip_x: false, animation_duration: 1000000u64 })
    &&& s[4].0@ == "wakingFront"@ && s[4].1 == (CharacterAnimation { start: 18, count: 6, flip_x: false, animation_duration: 1000000u64 })
    &&& s[5].0@ == "wakingLeft"@ && s[5].1 == (CharacterAnimation { start: 24, count: 6, flip_x: false, animation_duration: 1000000u64 })
    &&& s[6].0@ == "wakingRight"@ && s[6].1 == (CharacterAnimation { start: 24, count: 6, flip_x: true, animation_duration: 1000000u64 })
    &&& s[7].0@ == "wakingBack"@ && s[7].1 == (CharacterAnimation { start: 30, count: 6, flip_x: false, animation_duration: 1000000u64 })
    &&& s[8].0@ == "attackingFront"@ && s[8].1 == (CharacterAnimation { start: 36, count: 4, flip_x: false, animation_duration: 400000u64 })
    &&& s[9].0@ == "attackingLeft"@ && s[9].1 == (CharacterAnimation { start: 42, count: 4, flip_x: false, animation_duration: 400000u64 })
    &&& s[10].0@ == "attackingRight"@ && s[10].1 == (CharacterAnimation { start: 42, count: 4, flip_x: true, animation_duration: 400000u64 })
    &&& s[11].0@ == "attackingBack"@ && s[11].1 == (CharacterAnimation { start: 48, count: 4, flip_x: true, animation_duration: 400000u64 })
}

/// One canonical switch case: four patterns with the given abstract values.
pub open spec fn is_canonical_case(
    case: Vec<Variable>,
    a: VarVal,
    b: VarVal,
    c: VarVal,
    d: VarVal,
) -> bool {
    &&& case@.len() == 4
    &&& case@[0]@ == a
    &&& case@[1]@ == b
    &&& case@[2]@ == c
    &&& case@[3]@ == d
}

/// The canonical case table, in declaration order: the six standing cases,
/// the six walking cases, then the four attacking cases, whose wildcards
/// ignore the walking flag (and, sideways, the vertical direction).
pub open spec fn is_canonical_cases(cases: Seq<Vec<Variable>>) -> bool {
    &&& cases.len() == 16
    &&& is_canonical_case(cases[0], VarVal::Enum("none"@), VarVal::Enum("down"@), VarVal::Bool(false), VarVal::Bool(false))
    &&& is_canonical_case(cases[1], VarVal::Enum("none"@), VarVal::Enum("up"@), VarVal::Bool(false), VarVal::Bool(false))
    &&& is_canonical_case(cases[2], VarVal::Enum("left"@), VarVal::Enum("up"@), VarVal::Bool(false), VarVal::Bool(false))
    &&& is_canonical_case(cases[3], VarVal::Enum("left"@), VarVal::Enum("down"@), VarVal::Bool(false), VarVal::Bool(false))
    &&& is_canonical_case(cases[4], VarVal::Enum("right"@), VarVal::Enum("up"@), VarVal::Bool(false), VarVal::Bool(false))
    &&& is_canonical_case(cases[5], VarVal::Enum("right"@), VarVal::Enum("down"@), VarVal::Bool(false), VarVal::Bool(false))
    &&& is_canonical_case(cases[6], VarVal::Enum("none"@), VarVal::Enum("down"@), VarVal::Bool(true), VarVal::Bool(false))
    &&& is_canonical_case(cases[7], VarVal::Enum("none"@), VarVal::Enum("up"@), VarVal::Bool(true), VarVal::Bool(false))
    &&& is_canonical_case(cases[8], VarVal::Enum("left"@), VarVal::Enum("up"@), VarVal::Bool(true), VarVal::Bool(false))
    &&& is_canonical_case(cases[9], VarVal::Enum("left"@), VarVal::Enum("down"@), VarVal::Bool(true), VarVal::Bool(false))
    &&& is_canonical_case(cases[10], VarVal::Enum("right"@), VarVal::Enum("up"@), VarVal::Bool(true), VarVal::Bool(false))
    &&& is_canonical_case(cases[11], VarVal::Enum("right"@), VarVal::Enum("down"@), VarVal::Bool(true), VarVal::Bool(false))
    &&& is_canonical_case(cases[12], VarVal::Enum("none"@), VarVal::Enum("down"@), VarVal::Any, VarVal::Bool(true))
    &&& is_canonical_case(cases[13], VarVal::Enum("none"@), VarVal::Enum("up"@), VarVal::Any, VarVal::Bool(true))
    &&& is_canonical_case(cases[14], VarVal::Enum("left"@), VarVal::Any, VarVal::Any, VarVal::Bool(true))
    &&& is_canonical_case(cases[15], VarVal::Enum("right"@), VarVal::Any, VarVal::Any, VarVal::Bool(true))
}

/// The canonical node arena: the root at the entry index, the one switch
/// over all four variables, one state per animation (the attacking states
/// are locking and continue to the setter), and the setter that clears the
/// attacking flag and re-evaluates.
pub open spec fn is_canonical_nodes(nodes: Seq<NodeType>) -> bool {
    &&& nodes.len() == 15
    &&& nodes[0] == NodeType::Root(1usize)
    &&& (nodes[1] matches NodeType::Switch { variables, cases, result } && {
        &&& variables@ == seq![0usize, 1usize, 2usize, 3usize]
        &&& is_canonical_cases(cases@)
        &&& result@ == seq![
            2usize,
            5usize,
            3usize,
            3usize,
            4usize,
            4usize,
            6usize,
            9usize,
            7usize,
            7usize,
            8usize,
            8usize,
            10usize,
            13usize,
            11usize,
            12usize,
        ]
    })
    &&& nodes[2] matches NodeType::State(nm, nx, lk) && nm@ == "standingFront"@ && nx == 1 && !lk
    &&& nodes[3] matches NodeType::State(nm, nx, lk) && nm@ == "standingLeft"@ && nx == 1 && !lk
    &&& nodes[4] matches NodeType::State(nm, nx, lk) && nm@ == "standingRight"@ && nx == 1 && !lk
    &&& nodes[5] matches NodeType::State(nm, nx, lk) && nm@ == "standingBack"@ && nx == 1 && !lk
    &&& nodes[6] matches NodeType::State(nm, nx, lk) && nm@ == "wakingFront"@ && nx == 1 && !lk
    &&& nodes[7] matches NodeType::State(nm, nx, lk) && nm@ == "wakingLeft"@ && nx == 1 && !lk
    &&& nodes[8] matches NodeType::State(nm, nx, lk) && nm@ == "wakingRight"@ && nx == 1 && !lk
    &&& nodes[9] matches NodeType::State(nm, nx, lk) && nm@ == "wakingBack"@ && nx == 1 && !lk
    &&& nodes[10] matches NodeType::State(nm, nx, lk) && nm@ == "attackingFront"@ && nx == 14 && lk
    &&& nodes[11] matches NodeType::State(nm, nx, lk) && nm@ == "attackingLeft"@ && nx == 14 && lk
    &&& nodes[12] matches NodeType::State(nm, nx, lk) && nm@ == "attackingRight"@ && nx == 14 && lk
    &&& nodes[13] matches NodeType::State(nm, nx, lk) && nm@ == "attackingBack"@ && nx == 14 && lk
    &&& nodes[14] matches NodeType::Setter(targets, values, next) && targets@ == seq![3usize]
        && values@.len() == 1 && values@[0]@ == VarVal::Bool(false) && next == 1
}

/// The value domains of the canonical character's variables: a horizontal
/// direction, a vertical direction, and the two boolean flags.
pub open spec fn canonical_domain(vars: Seq<VarVal>) -> bool {
    &&& vars.len() == 4
    &&& (vars[0] == VarVal::Enum("none"@) || vars[0] == VarVal::Enum("left"@) || vars[0]
        == VarVal::Enum("right"@))
    &&& (vars[1] == VarVal::Enum("up"@) || vars[1] == VarVal::Enum("down"@))
    &&& vars[2] is Bool
    &&& vars[3] is Bool
}

/// The canonical character graph in its start state: the canonical animation
/// table and node arena, the four variables bound to their names and holding
/// their initial values (facing down, not walking, not attacking), the
/// cursors at the root, a fresh 200 ms timer, and no reset pending.
pub open spec fn canonical_start(m: GraphModel) -> bool {
    &&& is_canonical_animations(m.animations)
    &&& is_canonical_nodes(m.nodes)
    &&& m.name_to_variable.len() == 4
    &&& m.name_to_variable[0].0@ == "directionX"@ && m.name_to_variable[0].1 == 0
    &&& m.name_to_variable[1].0@ == "directionY"@ && m.name_to_variable[1].1 == 1
    &&& m.name_to_variable[2].0@ == "walking"@ && m.name_to_variable[2].1 == 2
    &&& m.name_to_variable[3].0@ == "attacking"@ && m.name_to_variable[3].1 == 3
    &&& spec_name_lookup(m.name_to_variable, "directionX"@) == Some(0usize)
    &&& spec_name_lookup(m.name_to_variable, "directionY"@) == Some(1usize)
    &&& spec_name_lookup(m.name_to_variable, "walking"@) == Some(2usize)
    &&& spec_name_lookup(m.name_to_variable, "attacking"@) == Some(3usize)
    &&& m.variables == seq![
        VarVal::Enum("none"@),
        VarVal::Enum("down"@),
        VarVal::Bool(false),
        VarVal::Bool(false),
    ]
    &&& m.current_node == 0
    &&& m.previous_node == 1
    &&& m.next_frame_index == 0
    &&& m.timer == (FrameTimer { elapsed: 0u64, duration: 200000u64 })
    &&& m.reseted == false
}

/// One named animation entry.
fn anim_entry(name: &str, start: usize, count: usize, flip_x: bool, duration: u64) -> (e: (
    String,
    CharacterAnimation,
))
    ensures
        e.0@ == name@,
        e.1 == (CharacterAnimation { start, count, flip_x, animation_duration: duration }),
{
    (name.to_owned(), CharacterAnimation::new(start, count, flip_x, duration))
}

/// An enumeration variable holding `name`.
fn enum_var(name: &str) -> (v: Variable)
    ensures
        v@ == VarVal::Enum(name@),
{
    Variable::Enum(name.to_owned())
}

/// A state node for the named animation.
fn state_node(name: &str, next: usize, locking: bool) -> (n: NodeType)
    ensures
        n matches NodeType::State(nm, nx, lk) && nm@ == name@ && nx == next && lk == locking,
{
    NodeType::State(name.to_owned(), next, locking)
}

/// A switch case over the four canonical inputs.
fn case4(a: Variable, b: Variable, c: Variable, d: Variable) -> (v: Vec<Variable>)
    ensures
        v@.len() == 4,
        v@[0] == a && v@[1] == b && v@[2] == c && v@[3] == d,
{
    let mut v: Vec<Variable> = Vec::new();
    v.push(a);
    v.push(b);
    v.push(c);
    v.push(d);
    v
}

/// The animation table of the canonical character: standing, waking and
/// attacking states for the four facing directions. Left and right share
/// frames, mirrored through `flip_x`.
fn canonical_animations() -> (v: Vec<(String, CharacterAnimation)>)
    ensures
        is_canonical_animations(v@),
{
    let mut v: Vec<(String, CharacterAnimation)> = Vec::new();
    v.push(anim_entry("standingFront", 0, 6, false, 1000000));
    v.push(anim_entry("standingLeft", 6, 6, false, 1000000));
    v.push(anim_entry("standingRight", 6, 6, true, 1000000));
    v.push(anim_entry("standingBack", 12, 6, false, 1000000));
    v.push(anim_entry("wakingFront", 18, 6, false, 1000000));
    v.push(anim_entry("wakingLeft", 24, 6, false, 1000000));
    v.push(anim_entry("wakingRight", 24, 6, true, 1000000));
    v.push(anim_entry("wakingBack", 30, 6, false, 1000000));
    v.push(anim_entry("attackingFront", 36, 4, false, 400000));
    v.push(anim_entry("attackingLeft", 42, 4, false, 400000));
    v.push(anim_entry("attackingRight", 42, 4, true, 400000));
    v.push(anim_entry("attackingBack", 48, 4, true, 400000));
    v
}

/// The initial variable values of the canonical character: facing down,
/// not walking, not attacking.
fn canonical_variables() -> (v: Vec<Variable>)
    ensures
        vars_view(v@) =~= seq![
            VarVal::Enum("none"@),
            VarVal::Enum("down"@),
            VarVal::Bool(false),
            VarVal::Bool(false),
        ],
{
    let mut v: Vec<Variable> = Vec::new();
    v.push(enum_var("none"));
    v.push(enum_var("down"));
    v.push(Variable::Bool(false));
    v.push(Variable::Bool(false));
    proof {
        assert(vars_view(v@) =~= seq![
            VarVal::Enum("none"@),
            VarVal::Enum("down"@),
            VarVal::Bool(false),
            VarVal::Bool(false),
        ]);
    }
    v
}

/// The variable names of the canonical character, bound to their slots.
fn canonical_name_map() -> (v: Vec<(String, usize)>)
    ensures
        v@.len() == 4,
        v@[0].0@ == "directionX"@ && v@[0].1 == 0,
        v@[1].0@ == "directionY"@ && v@[1].1 == 1,
        v@[2].0@ == "walking"@ && v@[2].1 == 2,
        v@[3].0@ == "attacking"@ && v@[3].1 == 3,
{
    let mut v: Vec<(String, usize)> = Vec::new();
    v.push(("directionX".to_owned(), 0));
    v.push(("directionY".to_owned(), 1));
    v.push(("walking".to_owned(), 2));
    v.push(("attacking".to_owned(), 3));
    v
}

/// The case table of the canonical switch: one case per combination of
/// directions and flags, scanned in declaration order; the attacking cases
/// use wildcards so an attack fires regardless of the walking flag (and, for
/// sideways attacks, of the vertical direction).
fn canonical_cases() -> (v: Vec<Vec<Variable>>)
    ensures
        is_canonical_cases(v@),
{
    let mut v: Vec<Vec<Variable>> = Vec::new();
    v.push(case4(enum_var("none"), enum_var("down"), Variable::Bool(false), Variable::Bool(false)));
    v.push(case4(enum_var("none"), enum_var("up"), Variable::Bool(false), Variable::Bool(false)));
    v.push(case4(enum_var("left"), enum_var("up"), Variable::Bool(false), Variable::Bool(false)));
    v.push(case4(enum_var("left"), enum_var("down"), Variable::Bool(false), Variable::Bool(false)));
    v.push(case4(enum_var("right"), enum_var("up"), Variable::Bool(false), Variable::Bool(false)));
    v.push(case4(enum_var("right"), enum_var("down"), Variable::Bool(false), Variable::Bool(false)));
    v.push(case4(enum_var("none"), enum_var("down"), Variable::Bool(true), Variable::Bool(false)));
    v.push(case4(enum_var("none"), enum_var("up"), Variable::Bool(true), Variable::Bool(false)));
    v.push(case4(enum_var("left"), enum_var("up"), Variable::Bool(true), Variable::Bool(false)));
    v.push(case4(enum_var("left"), enum_var("down"), Variable::Bool(true), Variable::Bool(false)));
    v.push(case4(enum_var("right"), enum_var("up"), Variable::Bool(true), Variable::Bool(false)));
    v.push(case4(enum_var("right"), enum_var("down"), Variable::Bool(true), Variable::Bool(false)));
    // attacking
    v.push(case4(enum_var("none"), enum_var("down"), Variable::Any, Variable::Bool(true)));
    v.push(case4(enum_var("none"), enum_var("up"), Variable::Any, Variable::Bool(true)));
    v.push(case4(enum_var("left"), Variable::Any, Variable::Any, Variable::Bool(true)));
    v.push(case4(enum_var("right"), Variable::Any, Variable::Any, Variable::Bool(true)));
    v
}

/// The node arena of the canonical character: the root, the one switch over
/// all four variables, one state per animation (the attacking states are
/// locking and continue to the setter), and the setter that clears the
/// attacking flag and re-evaluates.
fn canonical_nodes() -> (v: Vec<NodeType>)
    ensures
        is_canonical_nodes(v@),
{
    let mut inputs: Vec<usize> = Vec::new();
    inputs.push(0);
    inputs.push(1);
    inputs.push(2);
    inputs.push(3);
    let cases = canonical_cases();
    let mut result: Vec<usize> = Vec::new();
    result.push(2);
    result.push(5);
    result.push(3);
    result.push(3);
    result.push(4);
    result.push(4);
    result.push(6);
    result.push(9);
    result.push(7);
    result.push(7);
    result.push(8);
    result.push(8);
    result.push(10);
    result.push(13);
    result.push(11);
    result.push(12);

    let mut setter_targets: Vec<usize> = Vec::new();
    setter_targets.push(3);
    let mut setter_values: Vec<Variable> = Vec::new();
    setter_values.push(Variable::Bool(false));
    proof {
        assert(inputs@ =~= seq![0usize, 1usize, 2usize, 3usize]);
        assert(result@ =~= seq![
            2usize,
            5usize,
            3usize,
            3usize,
            4usize,
            4usize,
            6usize,
            9usize,
            7usize,
            7usize,
            8usize,
            8usize,
            10usize,
            13usize,
            11usize,
            12usize,
        ]);
        assert(setter_targets@ =~= seq![3usize]);
    }

    let mut v: Vec<NodeType> = Vec::new();
    v.push(NodeType::Root(1));
    v.push(NodeType::Switch { variables: inputs, cases, result });
    v.push(state_node("standingFront", 1, false));
    v.push(state_node("standingLeft", 1, false));
    v.push(state_node("standingRight", 1, false));
    v.push(state_node("standingBack", 1, false));
    v.push(state_node("wakingFront", 1, false));
    v.push(state_node("wakingLeft", 1, false));
    v.push(state_node("wakingRight", 1, false));
    v.push(state_node("wakingBack", 1, false));
    v.push(state_node("attackingFront", 14, true));
    v.push(state_node("attackingLeft", 14, true));
    v.push(state_node("attackingRight", 14, true));
    v.push(state_node("attackingBack", 14, true));
    // clear the attacking flag and re-evaluate
    v.push(NodeType::Setter(setter_targets, setter_values, 1));
    v
}

/// The graph after one variable assignment: a wildcard value or an unknown
/// name leaves the graph untouched; a known name whose stored value already
/// equals the new one changes nothing; otherwise the slot takes the new
/// value and a reset becomes pending.
pub open spec fn spec_set_variable(m: GraphModel, name: Seq<char>, value: VarVal) -> GraphModel {
    if value is Any {
        m
    } else {
        match spec_name_lookup(m.name_to_variable, name) {
            None => m,
            Some(i) => if i < m.variables.len() && !wild_eq(m.variables[i as int], value) {
                GraphModel {
                    variables: m.variables.update(i as int, value),
                    reseted: true,
                    ..m
                }
            } else {
                m
            },
        }
    }
}

impl CharacterAnimationGraph {
    /// Store `value` into the variable named `name`. A wildcard value is
    /// rejected and skipped; an unknown name is silently ignored (callers
    /// may probe names defensively). When the stored value actually changes,
    /// a graph reset becomes pending; it is consumed by the next
    /// `get_next_index` call whose current node is not locking.
    pub fn set_variable(&mut self, name: &str, value: Variable)
        requires
            old(self)@.wf(),
        ensures
            final(self)@.wf(),
            final(self)@ == spec_set_variable(old(self)@, name@, value@),
    {
        if value.is_any() {
            // cannot set a variable to the wildcard; skip
            return ;
        }
        let owned = name.to_owned();
        match find_variable_index(&self.name_to_variable, &owned) {
            Some(slot) => {
                let ghost pre = self@;
                proof {
                    lemma_name_lookup_listed(self@.name_to_variable, owned@);
                    assert(slot < self.variables@.len());
                }
                if !(self.variables[slot] == value) {
                    let ghost val = value@;
                    self.variables[slot] = value;
                    self.reseted = true;
                    proof {
                        assert(vars_view(self.variables@) =~= pre.variables.update(
                            slot as int,
                            val,
                        ));
                        assert(self@ =~= spec_set_variable(pre, name@, val));
                    }
                }
            },
            None => {},
        }
    }

    /// The canonical character graph: twelve animation states over the four
    /// variables `directionX`, `directionY`, `walking` and `attacking`, with
    /// locking attack states that clear their own flag through a setter.
    /// The graph starts at the root with a fresh 200 ms timer, facing down.
    #[verifier::rlimit(100)]
    pub fn new() -> (g: CharacterAnimationGraph)
        ensures
            g@.wf(),
            canonical_start(g@),
    {
        let animations = canonical_animations();
        let variables = canonical_variables();
        let name_to_variable = canonical_name_map();
        let nodes = canonical_nodes();
        let g = CharacterAnimationGraph {
            animations,
            variables,
            name_to_variable,
            nodes,
            current_node: 0,
            previous_node: 1,
            next_frame_index: 0,
            timer: FrameTimer::new(200000),
            reseted: false,
        };
        proof {
            let m = g@;
            reveal_strlit("standingFront");
            reveal_strlit("standingLeft");
            reveal_strlit("standingRight");
            reveal_strlit("standingBack");
            reveal_strlit("wakingFront");
            reveal_strlit("wakingLeft");
            reveal_strlit("wakingRight");
            reveal_strlit("wakingBack");
            reveal_strlit("attackingFront");
            reveal_strlit("attackingLeft");
            reveal_strlit("attackingRight");
            reveal_strlit("attackingBack");
            reveal_strlit("directionX");
            reveal_strlit("directionY");
            reveal_strlit("walking");
            reveal_strlit("attacking");
            reveal_with_fuel(spec_name_lookup, 5);
            reveal_with_fuel(spec_anim_lookup, 13);
            // distinguishing characters, so the lookups below can step over
            // the entries whose names differ
            assert("directionX"@[0] == 'd' && "directionX"@[9] == 'X');
            assert("directionY"@[0] == 'd' && "directionY"@[9] == 'Y');
            assert("walking"@[0] == 'w');
            assert("attacking"@[0] == 'a');
            assert("standingFront"@[0] == 's' && "standingFront"@[8] == 'F');
            assert("standingLeft"@[0] == 's' && "standingLeft"@[8] == 'L');
            assert("standingRight"@[0] == 's' && "standingRight"@[8] == 'R');
            assert("standingBack"@[0] == 's' && "standingBack"@[8] == 'B');
            assert("wakingFront"@[0] == 'w' && "wakingFront"@[6] == 'F');
            assert("wakingLeft"@[0] == 'w' && "wakingLeft"@[6] == 'L');
            assert("wakingRight"@[0] == 'w' && "wakingRight"@[6] == 'R');
            assert("wakingBack"@[0] == 'w' && "wakingBack"@[6] == 'B');
            assert("attackingFront"@[0] == 'a' && "attackingFront"@[9] == 'F');
            assert("attackingLeft"@[0] == 'a' && "attackingLeft"@[9] == 'L');
            assert("attackingRight"@[0] == 'a' && "attackingRight"@[9] == 'R');
            assert("attackingBack"@[0] == 'a' && "attackingBack"@[9] == 'B');
            assert("walking"@.len() == 7 && "attacking"@.len() == 9 && "wakingFront"@.len() == 11
                && "wakingLeft"@.len() == 10 && "wakingRight"@.len() == 11 && "wakingBack"@.len()
                == 10);
            assert({
                &&& spec_name_lookup(m.name_to_variable, "directionX"@) == Some(0usize)
                &&& spec_name_lookup(m.name_to_variable, "directionY"@) == Some(1usize)
                &&& spec_name_lookup(m.name_to_variable, "walking"@) == Some(2usize)
                &&& spec_name_lookup(m.name_to_variable, "attacking"@) == Some(3usize)
            });
            assert({
                &&& spec_anim_lookup(m.animations, "standingFront"@) matches Some(a) && a.inv()
                &&& spec_anim_lookup(m.animations, "standingLeft"@) matches Some(a) && a.inv()
                &&& spec_anim_lookup(m.animations, "standingRight"@) matches Some(a) && a.inv()
                &&& spec_anim_lookup(m.animations, "standingBack"@) matches Some(a) && a.inv()
                &&& spec_anim_lookup(m.animations, "wakingFront"@) matches Some(a) && a.inv()
                &&& spec_anim_lookup(m.animations, "wakingLeft"@) matches Some(a) && a.inv()
                &&& spec_anim_lookup(m.animations, "wakingRight"@) matches Some(a) && a.inv()
                &&& spec_anim_lookup(m.animations, "wakingBack"@) matches Some(a) && a.inv()
                &&& spec_anim_lookup(m.animations, "attackingFront"@) matches Some(a) && a.inv()
                &&& spec_anim_lookup(m.animations, "attackingLeft"@) matches Some(a) && a.inv()
                &&& spec_anim_lookup(m.animations, "attackingRight"@) matches Some(a) && a.inv()
                &&& spec_anim_lookup(m.animations, "attackingBack"@) matches Some(a) && a.inv()
            });
            assert forall|i: int| 0 <= i < m.nodes.len() implies m.node_wf(
                #[trigger] m.nodes[i],
            ) by {
                assert(m.nodes.len() == 15);
            }
            assert(m.wf());
        }
        g
    }

    /// One scheduler tick, `delta` microseconds after the previous one.
    /// Returns the frame to display when one was emitted this tick, `None`
    /// when the per-frame timer has not elapsed, and the evaluation error
    /// when the walk failed (the caller can hold the last frame and carry
    /// on).
    pub fn get_next_index(&mut self, delta: u64) -> (r: Result<Option<usize>, GraphEvaluationError>)
        requires
            old(self)@.wf(),
        ensures
            final(self)@.wf(),
            ({
                let e = spec_step(old(self)@, delta);
                &&& final(self)@ == e.state
                &&& match e.outcome {
                    StepOutcome::Emitted { frame, .. } => r matches Ok(Some(f)) && f as int
                        == frame,
                    StepOutcome::Idle => r matches Ok(o) && o is None,
                    StepOutcome::NoMatch { node } => r matches Err(
                        GraphEvaluationError::UnmatchedSwitch { node: n, variables: vs },
                    ) && n as int == node && vars_view(vs@) == e.state.variables,
                    StepOutcome::Spin { node } => r matches Err(
                        GraphEvaluationError::CyclicWalk { node: n },
                    ) && n as int == node,
                    StepOutcome::Stuck { .. } => false,
                }
            }),
    {
        let ghost m0 = self@;
        let locking = self.nodes[self.current_node].is_locking();
        if self.reseted && !locking {
            // consume the pending reset: restart the walk from the root
            self.current_node = 0;
            self.next_frame_index = 0;
            self.reseted = false;
            proof {
                assert(self@ =~= (GraphModel {
                    current_node: 0,
                    next_frame_index: 0,
                    reseted: false,
                    ..m0
                }));
            }
            return match self.eval() {
                Ok(frame) => Ok(Some(frame)),
                Err(e) => Err(e),
            };
        }
        self.timer.tick(delta);
        if !self.timer.finished() {
            proof {
                assert(self@ =~= (GraphModel { timer: m0.timer.spec_ticked(delta), ..m0 }));
            }
            return Ok(None);
        }
        let ghost m1 = self@;
        let result = self.eval();
        let ghost w = spec_walk(m1, m1.nodes.len());

        let animation = match self.get_current_animation() {
            Some(a) => Some(*a),
            None => None,
        };
        if let Some(animation) = animation {
            proof {
                // the current node is a state, so its animation is well
                // formed and has at least one frame
                assert(self@.node_wf(self@.nodes[self@.current_node]));
                assert(animation.inv());
            }
            // how far the completed timer overshot its duration
            let over = self.timer.elapsed - self.timer.duration;
            self.timer = FrameTimer::new(animation.animation_duration / (animation.count as u64));
            // start the new timer pre-elapsed, so timing drift does not
            // accumulate across frame boundaries
            self.timer.tick(over);
        }
        proof {
            assert(self@ =~= (GraphModel { timer: spec_rearm(w.state, m1.timer), ..w.state }));
        }
        match result {
            Ok(frame) => Ok(Some(frame)),
            Err(e) => Err(e),
        }
    }
}

/// The state a graph built from parts starts in: at the root, with a fresh
/// timer of the given duration and no reset pending.
pub open spec fn spec_assembled(
    animations: Seq<(String, CharacterAnimation)>,
    name_to_variable: Seq<(String, usize)>,
    variables: Seq<VarVal>,
    nodes: Seq<NodeType>,
    timer_duration: u64,
) -> GraphModel {
    GraphModel {
        animations,
        name_to_variable,
        variables,
        nodes,
        previous_node: 0,
        current_node: 0,
        next_frame_index: 0,
        timer: FrameTimer { elapsed: 0, duration: timer_duration },
        reseted: false,
    }
}

impl CharacterAnimationGraph {
    /// Build a graph from a custom topology, rejecting a malformed one: the
    /// entry node must be the one root, every node and variable index must
    /// be in range, every switch case must have one pattern per input, every
    /// state must name a known animation with at least one frame and a
    /// positive duration, and no stored variable may be the wildcard. The
    /// graph starts at the root with a fresh timer of `timer_duration`
    /// microseconds.
    ///
    /// One limit is not checked here, because it depends on the live
    /// variables: each evaluator walk has a hop budget of one visit per node
    /// of the graph. A topology whose setters send a walk around loops so
    /// often that it exceeds that budget before reaching a state is
    /// well-formed but reports a cyclic walk when evaluated.
    pub fn from_parts(
        animations: Vec<(String, CharacterAnimation)>,
        name_to_variable: Vec<(String, usize)>,
        variables: Vec<Variable>,
        nodes: Vec<NodeType>,
        timer_duration: u64,
    ) -> (r: Result<CharacterAnimationGraph, GameError>)
        ensures
            ({
                let m = spec_assembled(
                    animations@,
                    name_to_variable@,
                    vars_view(variables@),
                    nodes@,
                    timer_duration,
                );
                match r {
                    Ok(g) => g@ == m && m.wf(),
                    Err(_) => !m.wf(),
                }
            }),
    {
        let ghost m = spec_assembled(
            animations@,
            name_to_variable@,
            vars_view(variables@),
            nodes@,
            timer_duration,
        );
        let node_count = nodes.len();
        let var_count = variables.len();
        if node_count == 0 {
            return Err(GameError::new("graph has no nodes".to_owned()));
        }
        if !(matches!(nodes[0], NodeType::Root(_))) {
            return Err(GameError::new("graph entry node is not the root".to_owned()));
        }
        let mut i: usize = 0;
        while i < node_count
            invariant
                m == spec_assembled(
                    animations@,
                    name_to_variable@,
                    vars_view(variables@),
                    nodes@,
                    timer_duration,
                ),
                node_count == nodes@.len(),
                var_count == variables@.len(),
                node_count > 0,
                nodes@[0] is Root,
                i <= node_count,
                forall|k: int| 1 <= k < i ==> !((#[trigger] nodes@[k]) is Root),
                forall|k: int| 0 <= k < i ==> m.node_wf(#[trigger] nodes@[k]),
            decreases node_count - i,
        {
            match &nodes[i] {
                NodeType::Root(next) => {
                    if i != 0 {
                        return Err(GameError::new("graph has a second root node".to_owned()));
                    }
                    if !(*next < node_count) {
                        return Err(GameError::new("root points outside the graph".to_owned()));
                    }
                },
                NodeType::State(name, next, _locking) => {
                    if !(*next < node_count) {
                        return Err(GameError::new("state points outside the graph".to_owned()));
                    }
                    match find_animation_index(&animations, name) {
                        Some(ai) => {
                            let a = animations[ai].1;
                            if a.count == 0 || a.animation_duration == 0 || a.start > usize::MAX
                                - a.count {
                                return Err(
                                    GameError::new("state has a malformed animation".to_owned()),
                                );
                            }
                        },
                        None => {
                            return Err(
                                GameError::new("state names an unknown animation".to_owned()),
                            );
                        },
                    }
                },
                NodeType::Switch { variables: inputs, cases, result } => {
                    if result.len() != cases.len() {
                        return Err(
                            GameError::new("switch case and target counts differ".to_owned()),
                        );
                    }
                    let mut k: usize = 0;
                    while k < inputs.len()
                        invariant
                            m == spec_assembled(
                                animations@,
                                name_to_variable@,
                                vars_view(variables@),
                                nodes@,
                                timer_duration,
                            ),
                            node_count == nodes@.len(),
                            i < node_count,
                            var_count == variables@.len(),
                            nodes@[i as int] == (NodeType::Switch {
                                variables: *inputs,
                                cases: *cases,
                                result: *result,
                            }),
                            k <= inputs@.len(),
                            forall|j: int|
                                0 <= j < k ==> (#[trigger] inputs@[j]) < var_count,
                        decreases inputs@.len() - k,
                    {
                        if !(inputs[k] < var_count) {
                            proof {
                                assert(!((nodes@[i as int]->Switch_variables)@[k as int]
                                    < m.variables.len()));
                                assert(!m.wf());
                            }
                            return Err(
                                GameError::new("switch reads an unknown variable".to_owned()),
                            );
                        }
                        k = k + 1;
                    }
                    let mut k: usize = 0;
                    while k < cases.len()
                        invariant
                            m == spec_assembled(
                                animations@,
                                name_to_variable@,
                                vars_view(variables@),
                                nodes@,
                                timer_duration,
                            ),
                            node_count == nodes@.len(),
                            i < node_count,
                            nodes@[i as int] == (NodeType::Switch {
                                variables: *inputs,
                                cases: *cases,
                                result: *result,
                            }),
                            k <= cases@.len(),
                            forall|j: int|
                                0 <= j < k ==> (#[trigger] cases@[j])@.len() == inputs@.len(),
                        decreases cases@.len() - k,
                    {
                        if cases[k].len() != inputs.len() {
                            return Err(
                                GameError::new(
                                    "switch case arity does not match its inputs".to_owned(),
                                ),
                            );
                        }
                        k = k + 1;
                    }
                    let mut k: usize = 0;
                    while k < result.len()
                        invariant
                            m == spec_assembled(
                                animations@,
                                name_to_variable@,
                                vars_view(variables@),
                                nodes@,
                                timer_duration,
                            ),
                            node_count == nodes@.len(),
                            i < node_count,
                            nodes@[i as int] == (NodeType::Switch {
                                variables: *inputs,
                                cases: *cases,
                                result: *result,
                            }),
                            k <= result@.len(),
                            forall|j: int|
                                0 <= j < k ==> (#[trigger] result@[j]) < node_count,
                        decreases result@.len() - k,
                    {
                        if !(result[k] < node_count) {
                            return Err(
                                GameError::new("switch targets outside the graph".to_owned()),
                            );
                        }
                        k = k + 1;
                    }
                },
                NodeType::Setter(targets, values, next) => {
                    if !(*next < node_count) {
                        return Err(GameError::new("setter points outside the graph".to_owned()));
                    }
                    if values.len() != targets.len() {
                        return Err(
                            GameError::new("setter target and value counts differ".to_owned()),
                        );
                    }
                    let mut k: usize = 0;
                    while k < targets.len()
                        invariant
                            m == spec_assembled(
                                animations@,
                                name_to_variable@,
                                vars_view(variables@),
                                nodes@,
                                timer_duration,
                            ),
                            node_count == nodes@.len(),
                            i < node_count,
                            var_count == variables@.len(),
                            nodes@[i as int] == (NodeType::Setter(*targets, *values, *next)),
                            k <= targets@.len(),
                            forall|j: int|
                                0 <= j < k ==> (#[trigger] targets@[j]) < var_count,
                        decreases targets@.len() - k,
                    {
                        if !(targets[k] < var_count) {
                            return Err(
                                GameError::new("setter writes an unknown variable".to_owned()),
                            );
                        }
                        k = k + 1;
                    }
                },
            }
            proof {
                assert(m.node_wf(nodes@[i as int]));
            }
            i = i + 1;
        }
        let mut i: usize = 0;
        while i < var_count
            invariant
                m == spec_assembled(
                    animations@,
                    name_to_variable@,
                    vars_view(variables@),
                    nodes@,
                    timer_duration,
                ),
                var_count == variables@.len(),
                i <= var_count,
                forall|k: int| 0 <= k < i ==> !((#[trigger] vars_view(variables@)[k]) is Any),
            decreases var_count - i,
        {
            if variables[i].is_any() {
                proof {
                    assert(m.variables[i as int] is Any);
                    assert(!m.wf());
                }
                return Err(GameError::new("a stored variable is the wildcard".to_owned()));
            }
            i = i + 1;
        }
        let mut i: usize = 0;
        while i < name_to_variable.len()
            invariant
                m == spec_assembled(
                    animations@,
                    name_to_variable@,
                    vars_view(variables@),
                    nodes@,
                    timer_duration,
                ),
                var_count == variables@.len(),
                i <= name_to_variable@.len(),
                forall|k: int|
                    0 <= k < i ==> (#[trigger] name_to_variable@[k]).1 < var_count,
            decreases name_to_variable@.len() - i,
        {
            if !(name_to_variable[i].1 < var_count) {
                proof {
                    assert(!(m.name_to_variable[i as int].1 < m.variables.len()));
                    assert(!m.wf());
                }
                return Err(GameError::new("a name binds an unknown variable slot".to_owned()));
            }
            i = i + 1;
        }
        let g = CharacterAnimationGraph {
            animations,
            name_to_variable,
            variables,
            nodes,
            previous_node: 0,
            current_node: 0,
            next_frame_index: 0,
            timer: FrameTimer::new(timer_duration),
            reseted: false,
        };
        proof {
            assert(g@ =~= m);
            assert(m.wf());
        }
        Ok(g)
    }
}

impl Default for CharacterAnimationGraph {
    /// The canonical character graph of [`CharacterAnimationGraph::new`].
    fn default() -> (g: Self)
        ensures
            g@.wf(),
            canonical_start(g@),
    {
        CharacterAnimationGraph::new()
    }
}

} // verus!
