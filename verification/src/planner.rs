//! The planner: decomposes the root task of a network depth first, taking
//! for each compound task the first method whose preconditions hold on the
//! working state, and backtracking to the last decomposition when a task
//! cannot be planned.
use vstd::prelude::*;
use std::collections::VecDeque;
use crate::model::{HtnState, RegisteredType, TypeRegistryModel, Val};
use crate::plan::{fresh_plan, Plan};
use crate::effects::FloatSum;
use crate::tasks::{
    all_hold, conditions_evaluable, effects_run, first_applicable, methods_evaluable, run_effects,
    law_first_applicable, task_named, texts_view, try_conditions_hold, try_find_method, CompoundTask,
    EffectsRun, EffectsRunV, PrimitiveTask, Task, HTN,
};

verus! {

/// The most tasks the planner takes from its stack in one run.
pub const SANITY_LIMIT: usize = 100;

/// What the planner records when it decomposes a compound task, to come
/// back to it with the next method.
#[derive(Debug)]
struct DecompositionState {
    current_task: String,
    final_plan: Vec<String>,
    next_method_index: usize,
    mtr: Vec<usize>,
}

/// The model of a decomposition record: the compound task, the plan before
/// it was decomposed, the method to try next, and the method traversal
/// record after it was decomposed.
pub struct DecompV {
    pub current_task: Seq<char>,
    pub final_plan: Seq<Seq<char>>,
    pub next_method_index: usize,
    pub mtr: Seq<usize>,
}

impl View for DecompositionState {
    type V = DecompV;

    closed spec fn view(&self) -> DecompV {
        DecompV {
            current_task: self.current_task@,
            final_plan: texts_view(self.final_plan@),
            next_method_index: self.next_method_index,
            mtr: self.mtr@,
        }
    }
}

/// Where a planning run stands: the tasks still to plan (next first), the
/// decomposition records (last on top), the method index the next compound
/// task starts its search at, the method traversal record, the plan so far
/// and the working state.
pub struct SearchV {
    pub stack: Seq<Seq<char>>,
    pub decomps: Seq<DecompV>,
    pub method_index: usize,
    pub mtr: Seq<usize>,
    pub plan: Seq<Seq<char>>,
    pub state: Seq<(Seq<char>, Val)>,
}

/// The outcome of one planning step: go on, stop, a fault (a condition or
/// effect that cannot be evaluated on the working state), a dead end
/// (nothing left to backtrack to), or an increment of an `f32` field whose
/// sum of the bits `a` and `b` is not given.
pub enum StepV {
    Next(SearchV),
    Stop(SearchV),
    Fault,
    DeadEnd,
    NeedSum(u32, u32),
}

/// Backtracking: the last decomposition comes back, with its plan and
/// record, its compound task on top of the stack, and the search for its
/// method resuming after the one that failed.
pub open spec fn backtrack(s: SearchV) -> StepV {
    if s.decomps.len() == 0 {
        StepV::DeadEnd
    } else {
        let d = s.decomps.last();
        StepV::Next(
            SearchV {
                stack: seq![d.current_task] + s.stack,
                decomps: s.decomps.drop_last(),
                method_index: d.next_method_index,
                mtr: d.mtr,
                plan: d.final_plan,
                state: s.state,
            },
        )
    }
}

/// One planning step on the task on top of the stack.
///
/// A name no task has stops planning with an empty plan. A compound task
/// is replaced by the subtasks of its first applicable method from the
/// current method index on; the decomposition is recorded and the method
/// index starts again at 0. A primitive task whose preconditions hold
/// joins the plan, and its effects, then its expected effects, are applied
/// to the working state, the sums that increments of `f32` fields make
/// taken from `sums`. Otherwise the planner backtracks.
pub open spec fn step(tasks: Seq<Task>, types: Seq<RegisteredType>, sums: Seq<FloatSum>, s: SearchV) -> StepV {
    let name = s.stack[0];
    let rest = s.stack.drop_first();
    match task_named(tasks, name) {
        None => StepV::Stop(SearchV { stack: rest, plan: Seq::empty(), ..s }),
        Some(Task::Compound(c)) => if !methods_evaluable(
            c.methods@,
            s.state,
            types,
            s.method_index as int,
        ) {
            StepV::Fault
        } else {
            match first_applicable(c.methods@, s.state, s.method_index as int) {
                Some(k) => {
                    let mtr = s.mtr.push(k as usize);
                    StepV::Next(
                        SearchV {
                            stack: texts_view(c.methods@[k].subtasks@) + rest,
                            decomps: s.decomps.push(
                                DecompV {
                                    current_task: name,
                                    final_plan: s.plan,
                                    next_method_index: (k + 1) as usize,
                                    mtr,
                                },
                            ),
                            method_index: 0,
                            mtr,
                            plan: s.plan,
                            state: s.state,
                        },
                    )
                },
                None => backtrack(SearchV { stack: rest, ..s }),
            }
        },
        Some(Task::Primitive(p)) => if !conditions_evaluable(p.preconditions@, s.state, types) {
            StepV::Fault
        } else if all_hold(p.preconditions@, s.state) {
            match effects_run(p.effects@, s.state, types, sums) {
                EffectsRunV::Fault => StepV::Fault,
                EffectsRunV::NeedSum(a, b) => StepV::NeedSum(a, b),
                EffectsRunV::Applied(st1) => match effects_run(p.expected_effects@, st1, types, sums) {
                    EffectsRunV::Fault => StepV::Fault,
                    EffectsRunV::NeedSum(a, b) => StepV::NeedSum(a, b),
                    EffectsRunV::Applied(st2) => StepV::Next(
                        SearchV { stack: rest, plan: s.plan.push(name), state: st2, ..s },
                    ),
                },
            }
        } else {
            backtrack(SearchV { stack: rest, ..s })
        },
    }
}

/// How a planning run ends: with a plan and its method traversal record,
/// failed (a fault, a dead end, or a network without tasks), or at an
/// increment of an `f32` field whose sum of the bits `a` and `b` is not
/// given.
pub enum RunV {
    Planned(Seq<Seq<char>>, Seq<usize>),
    Failed,
    NeedSum(u32, u32),
}

/// Planning from `s` with at most `budget` more steps.
pub open spec fn run(tasks: Seq<Task>, types: Seq<RegisteredType>, sums: Seq<FloatSum>, s: SearchV, budget: nat) -> RunV
    decreases budget,
{
    if s.stack.len() == 0 || budget == 0 {
        RunV::Planned(s.plan, s.mtr)
    } else {
        match step(tasks, types, sums, s) {
            StepV::Fault | StepV::DeadEnd => RunV::Failed,
            StepV::NeedSum(a, b) => RunV::NeedSum(a, b),
            StepV::Stop(t) => RunV::Planned(t.plan, t.mtr),
            StepV::Next(t) => run(tasks, types, sums, t, (budget - 1) as nat),
        }
    }
}

/// The start of a run: the root task alone on the stack.
pub open spec fn start(root: Seq<char>, state: Seq<(Seq<char>, Val)>) -> SearchV {
    SearchV {
        stack: seq![root],
        decomps: Seq::empty(),
        method_index: 0,
        mtr: Seq::empty(),
        plan: Seq::empty(),
        state,
    }
}

/// What planning the network from `state` gives, with the sums of `f32`
/// values in `sums`. At most [`SANITY_LIMIT`] steps are taken.
pub open spec fn planned_with(htn: HTN, types: Seq<RegisteredType>, sums: Seq<FloatSum>, state: Seq<(Seq<char>, Val)>) -> RunV {
    if htn.tasks@.len() == 0 {
        RunV::Failed
    } else {
        run(htn.tasks@, types, sums, start(htn.tasks@[0].name_of()@, state), SANITY_LIMIT as nat)
    }
}

/// What planning the network from `state` gives without any sum of `f32`
/// values: the plan and its method traversal record, or `None` where the
/// network has no task or the run meets a fault, a dead end, or an
/// increment of an `f32` field.
pub open spec fn planned(htn: HTN, types: Seq<RegisteredType>, state: Seq<(Seq<char>, Val)>) -> Option<
    (Seq<Seq<char>>, Seq<usize>),
> {
    match planned_with(htn, types, Seq::empty(), state) {
        RunV::Planned(names, mtr) => Some((names, mtr)),
        _ => None,
    }
}

/// A task name the network does not know stops planning with an empty plan.
pub proof fn law_step_unknown_task(tasks: Seq<Task>, types: Seq<RegisteredType>, sums: Seq<FloatSum>, s: SearchV)
    requires
        s.stack.len() > 0,
        task_named(tasks, s.stack[0]) is None,
    ensures
        step(tasks, types, sums, s) matches StepV::Stop(t) && t.plan.len() == 0 && t.mtr == s.mtr,
{
}

/// Decomposing a compound task takes the first method, from the current
/// method index on, whose preconditions hold: its subtasks go on top of
/// the stack, in order; the method's index joins the method traversal
/// record; a record is kept of the task, the plan as it stands, the method
/// to try next and the new traversal record; the plan and the working
/// state are unchanged, and the method search starts again at 0.
pub proof fn law_step_decomposes(
    tasks: Seq<Task>,
    types: Seq<RegisteredType>,
    sums: Seq<FloatSum>,
    s: SearchV,
    c: CompoundTask,
    k: int,
)
    requires
        s.stack.len() > 0,
        task_named(tasks, s.stack[0]) == Some(Task::Compound(c)),
        methods_evaluable(c.methods@, s.state, types, s.method_index as int),
        s.method_index <= k < c.methods@.len(),
        all_hold(c.methods@[k].preconditions@, s.state),
        forall|j: int| s.method_index <= j < k ==> !all_hold(#[trigger] c.methods@[j].preconditions@, s.state),
    ensures
        step(tasks, types, sums, s) == StepV::Next(
            SearchV {
                stack: texts_view(c.methods@[k].subtasks@) + s.stack.drop_first(),
                decomps: s.decomps.push(
                    DecompV {
                        current_task: s.stack[0],
                        final_plan: s.plan,
                        next_method_index: (k + 1) as usize,
                        mtr: s.mtr.push(k as usize),
                    },
                ),
                method_index: 0,
                mtr: s.mtr.push(k as usize),
                plan: s.plan,
                state: s.state,
            },
        ),
{
    law_first_applicable(c.methods@, s.state, s.method_index as int);
    let f = first_applicable(c.methods@, s.state, s.method_index as int);
    if let Some(i) = f {
        if i < k {
            assert(!all_hold(c.methods@[i].preconditions@, s.state));
        }
        if i > k {
            assert(!all_hold(c.methods@[k].preconditions@, s.state));
        }
    }
}

/// A primitive task whose preconditions do not hold makes the planner go
/// back to the last decomposition, forgetting everything planned since:
/// the plan and the method traversal record become those recorded with it,
/// its compound task goes back on top of the stack, and its method search
/// resumes after the method that failed; the working state is kept. With
/// no decomposition to go back to, planning is at a dead end.
pub proof fn law_step_failed_primitive_backtracks(
    tasks: Seq<Task>,
    types: Seq<RegisteredType>,
    sums: Seq<FloatSum>,
    s: SearchV,
    p: PrimitiveTask,
)
    requires
        s.stack.len() > 0,
        task_named(tasks, s.stack[0]) == Some(Task::Primitive(p)),
        conditions_evaluable(p.preconditions@, s.state, types),
        !all_hold(p.preconditions@, s.state),
    ensures
        s.decomps.len() == 0 ==> step(tasks, types, sums, s) == StepV::DeadEnd,
        s.decomps.len() > 0 ==> step(tasks, types, sums, s) == StepV::Next(
            SearchV {
                stack: seq![s.decomps.last().current_task] + s.stack.drop_first(),
                decomps: s.decomps.drop_last(),
                method_index: s.decomps.last().next_method_index,
                mtr: s.decomps.last().mtr,
                plan: s.decomps.last().final_plan,
                state: s.state,
            },
        ),
{
}

/// A compound task none of whose methods, from the current method index
/// on, has preconditions that hold makes the planner go back to the last
/// decomposition, forgetting everything planned since, as a failed
/// primitive task does.
pub proof fn law_step_exhausted_compound_backtracks(
    tasks: Seq<Task>,
    types: Seq<RegisteredType>,
    sums: Seq<FloatSum>,
    s: SearchV,
    c: CompoundTask,
)
    requires
        s.stack.len() > 0,
        task_named(tasks, s.stack[0]) == Some(Task::Compound(c)),
        methods_evaluable(c.methods@, s.state, types, s.method_index as int),
        forall|j: int|
            s.method_index <= j < c.methods@.len() ==> !all_hold(#[trigger] c.methods@[j].preconditions@, s.state),
    ensures
        s.decomps.len() == 0 ==> step(tasks, types, sums, s) == StepV::DeadEnd,
        s.decomps.len() > 0 ==> step(tasks, types, sums, s) == StepV::Next(
            SearchV {
                stack: seq![s.decomps.last().current_task] + s.stack.drop_first(),
                decomps: s.decomps.drop_last(),
                method_index: s.decomps.last().next_method_index,
                mtr: s.decomps.last().mtr,
                plan: s.decomps.last().final_plan,
                state: s.state,
            },
        ),
{
    law_first_applicable(c.methods@, s.state, s.method_index as int);
    if let Some(k) = first_applicable(c.methods@, s.state, s.method_index as int) {
        assert(!all_hold(c.methods@[k].preconditions@, s.state));
    }
}

/// A primitive task whose preconditions hold joins the end of the plan,
/// and the working state becomes what applying its effects, then its
/// expected effects, gives; the rest of the search is unchanged.
pub proof fn law_step_plans_primitive(
    tasks: Seq<Task>,
    types: Seq<RegisteredType>,
    sums: Seq<FloatSum>,
    s: SearchV,
    p: PrimitiveTask,
    st1: Seq<(Seq<char>, Val)>,
    st2: Seq<(Seq<char>, Val)>,
)
    requires
        s.stack.len() > 0,
        task_named(tasks, s.stack[0]) == Some(Task::Primitive(p)),
        conditions_evaluable(p.preconditions@, s.state, types),
        all_hold(p.preconditions@, s.state),
        effects_run(p.effects@, s.state, types, sums) == EffectsRunV::Applied(st1),
        effects_run(p.expected_effects@, st1, types, sums) == EffectsRunV::Applied(st2),
    ensures
        step(tasks, types, sums, s) == StepV::Next(
            SearchV {
                stack: s.stack.drop_first(),
                decomps: s.decomps,
                method_index: s.method_index,
                mtr: s.mtr,
                plan: s.plan.push(s.stack[0]),
                state: st2,
            },
        ),
{
}

/// Whether every name names a primitive task of the network.
pub open spec fn all_primitive(tasks: Seq<Task>, names: Seq<Seq<char>>) -> bool {
    forall|i: int| 0 <= i < names.len() ==> #[trigger] task_named(tasks, names[i]) matches Some(
        Task::Primitive(_),
    )
}

/// What every reachable search keeps: its plan and the plans its records
/// come back to name primitive tasks only and hold at most `n` tasks.
pub open spec fn search_inv(tasks: Seq<Task>, s: SearchV, n: int) -> bool {
    &&& all_primitive(tasks, s.plan)
    &&& s.plan.len() <= n
    &&& forall|k: int| 0 <= k < s.decomps.len() ==> all_primitive(tasks, (#[trigger] s.decomps[k]).final_plan)
        && s.decomps[k].final_plan.len() <= n
}

proof fn lemma_step_inv(tasks: Seq<Task>, types: Seq<RegisteredType>, sums: Seq<FloatSum>, s: SearchV, n: int)
    requires
        s.stack.len() > 0,
        search_inv(tasks, s, n),
    ensures
        step(tasks, types, sums, s) matches StepV::Next(t) ==> search_inv(tasks, t, n + 1),
        step(tasks, types, sums, s) matches StepV::Stop(t) ==> search_inv(tasks, t, n + 1),
{
    let name = s.stack[0];
    match step(tasks, types, sums, s) {
        StepV::Next(t) => {
            if t.plan == s.plan.push(name) {
                if let Some(Task::Primitive(_)) = task_named(tasks, name) {
                    assert forall|i: int| 0 <= i < t.plan.len() implies #[trigger] task_named(
                        tasks,
                        t.plan[i],
                    ) matches Some(Task::Primitive(_)) by {
                        if i < s.plan.len() {
                            assert(t.plan[i] == s.plan[i]);
                        }
                    }
                }
            }
            assert forall|k: int| 0 <= k < t.decomps.len() implies all_primitive(
                tasks,
                (#[trigger] t.decomps[k]).final_plan,
            ) && t.decomps[k].final_plan.len() <= n + 1 by {
                if k < s.decomps.len() && t.decomps[k] != s.decomps[k] {
                    assert(t.decomps[k].final_plan == s.plan);
                }
            }
        },
        _ => {},
    }
}

proof fn lemma_run_inv(tasks: Seq<Task>, types: Seq<RegisteredType>, sums: Seq<FloatSum>, s: SearchV, budget: nat, n: int)
    requires
        search_inv(tasks, s, n),
    ensures
        run(tasks, types, sums, s, budget) matches RunV::Planned(names, _) ==> all_primitive(tasks, names)
            && names.len() <= n + budget,
    decreases budget,
{
    if s.stack.len() > 0 && budget > 0 {
        lemma_step_inv(tasks, types, sums, s, n);
        if let StepV::Next(t) = step(tasks, types, sums, s) {
            lemma_run_inv(tasks, types, sums, t, (budget - 1) as nat, n + 1);
        }
    }
}

/// A plan holds only primitive tasks of the network, and at most
/// [`SANITY_LIMIT`] of them, whatever sums of `f32` values are given.
pub proof fn law_plan_is_primitive(
    htn: HTN,
    types: Seq<RegisteredType>,
    sums: Seq<FloatSum>,
    state: Seq<(Seq<char>, Val)>,
)
    ensures
        planned_with(htn, types, sums, state) matches RunV::Planned(names, _) ==> all_primitive(
            htn.tasks@,
            names,
        ) && names.len() <= SANITY_LIMIT,
{
    if htn.tasks@.len() > 0 {
        lemma_run_inv(
            htn.tasks@,
            types,
            sums,
            start(htn.tasks@[0].name_of()@, state),
            SANITY_LIMIT as nat,
            0,
        );
    }
}

/// Planning depends on the network, the registry and the state alone:
/// a planner that has already planned other states and a fresh planner,
/// over the same network and registry, plan a state to the same task names
/// and method traversal record (see [`HtnPlanner::try_plan`], whose result
/// is fixed by [`planned_with`]).
pub proof fn law_planning_repeatable(
    used: HtnPlanner,
    fresh: HtnPlanner,
    sums: Seq<FloatSum>,
    state: Seq<(Seq<char>, Val)>,
)
    requires
        used.network() == fresh.network(),
        used.registry() == fresh.registry(),
    ensures
        planned_with(used.network(), used.registry().types@, sums, state) == planned_with(
            fresh.network(),
            fresh.registry().types@,
            sums,
            state,
        ),
{
}

/// Puts the items on the front of the deque, keeping their order.
fn push_front_all(d: &mut VecDeque<String>, items: &Vec<String>)
    ensures
        final(d)@ == items@ + old(d)@,
{
    let mut j: usize = items.len();
    while j > 0
        invariant
            j <= items@.len(),
            d@ == items@.subrange(j as int, items@.len() as int) + old(d)@,
        decreases j,
    {
        j = j - 1;
        d.push_front(items[j].clone());
        assert(d@ =~= items@.subrange(j as int, items@.len() as int) + old(d)@);
    }
    assert(items@.subrange(0, items@.len() as int) =~= items@);
}

/// A copy of a list of texts.
fn copy_texts(v: &Vec<String>) -> (r: Vec<String>)
    ensures
        r@ == v@,
{
    let mut out: Vec<String> = Vec::new();
    let mut i: usize = 0;
    while i < v.len()
        invariant
            0 <= i <= v@.len(),
            out@ =~= v@.take(i as int),
        decreases v@.len() - i,
    {
        out.push(v[i].clone());
        i = i + 1;
    }
    assert(v@.take(i as int) =~= v@);
    out
}

/// A copy of a list of indices.
fn copy_indices(v: &Vec<usize>) -> (r: Vec<usize>)
    ensures
        r@ == v@,
{
    let mut out: Vec<usize> = Vec::new();
    let mut i: usize = 0;
    while i < v.len()
        invariant
            0 <= i <= v@.len(),
            out@ =~= v@.take(i as int),
        decreases v@.len() - i,
    {
        out.push(v[i]);
        i = i + 1;
    }
    assert(v@.take(i as int) =~= v@);
    out
}

/// How planning with given sums of `f32` values ended.
#[derive(Debug)]
pub enum PlanOutcome {
    /// The plan.
    Planned(Plan),
    /// The network has no task, or the run met a fault or a dead end.
    Failed,
    /// The run stopped at an increment of an `f32` field: it needs the sum
    /// of the `f32` values with bits `left` and `right`.
    NeedSum { left: u32, right: u32 },
}

/// A planner over a task network and the registry its types resolve in.
pub struct HtnPlanner<'a> {
    htn: &'a HTN,
    task_stack: VecDeque<String>,
    decomp_stack: Vec<DecompositionState>,
    method_index: usize,
    atr: &'a TypeRegistryModel,
    mtr: Vec<usize>,
}

impl<'a> HtnPlanner<'a> {
    /// The network the planner plans over.
    pub closed spec fn network(&self) -> HTN {
        *self.htn
    }

    /// The registry the planner resolves types in.
    pub closed spec fn registry(&self) -> TypeRegistryModel {
        *self.atr
    }

    /// Where the run stands, given the plan so far and the working state.
    closed spec fn search(&self, plan: Seq<String>, state: Seq<(Seq<char>, Val)>) -> SearchV {
        SearchV {
            stack: texts_view(self.task_stack@),
            decomps: self.decomp_stack@.map_values(|d: DecompositionState| d@),
            method_index: self.method_index,
            mtr: self.mtr@,
            plan: texts_view(plan),
            state,
        }
    }

    /// A planner over `htn`, resolving types in `atr`.
    pub fn new(htn: &'a HTN, atr: &'a TypeRegistryModel) -> (r: HtnPlanner<'a>)
        ensures
            r.network() == *htn,
            r.registry() == *atr,
    {
        HtnPlanner {
            htn,
            task_stack: VecDeque::new(),
            decomp_stack: Vec::new(),
            method_index: 0,
            atr,
            mtr: Vec::new(),
        }
    }

    /// Plans the network's root task from `initial_state`, taking the sums
    /// that increments of `f32` fields make from `sums` (see
    /// [`planned_with`]): the plan, `Failed` where the network has no task
    /// or the run meets a fault or a dead end, or the sum the run stopped
    /// at for want of it.
    #[verifier::rlimit(40)]
    pub fn try_plan_with(&mut self, initial_state: &HtnState, sums: &Vec<FloatSum>) -> (r: PlanOutcome)
        requires
            initial_state.wf(),
        ensures
            final(self).network() == old(self).network(),
            final(self).registry() == old(self).registry(),
            match planned_with(old(self).network(), old(self).registry().types@, sums@, initial_state@) {
                RunV::Failed => r is Failed,
                RunV::NeedSum(a, b) => r matches PlanOutcome::NeedSum { left, right } && left == a
                    && right == b,
                RunV::Planned(names, mtr) => r matches PlanOutcome::Planned(p) && p@ == fresh_plan(
                    p@.id,
                    names,
                    mtr,
                ),
            },
    {
        self.reset();
        let htn: &HTN = self.htn;
        let registry: &TypeRegistryModel = self.atr;
        if htn.tasks.len() == 0 {
            return PlanOutcome::Failed;
        }
        let ghost tasks = htn.tasks@;
        let ghost types = registry.types@;
        let ghost goal = planned_with(*htn, types, sums@, initial_state@);
        let mut final_plan: Vec<String> = Vec::new();
        let root = htn.root_task().name().clone();
        self.task_stack.push_back(root);
        let mut state = initial_state.clone();
        let mut count: usize = 0;
        proof {
            let s0 = self.search(final_plan@, state@);
            let t0 = start(tasks[0].name_of()@, initial_state@);
            assert(s0.stack =~= t0.stack);
            assert(s0.decomps =~= t0.decomps);
            assert(s0.mtr =~= t0.mtr);
            assert(s0.plan =~= t0.plan);
        }
        loop
            invariant_except_break
                count <= SANITY_LIMIT,
                run(tasks, types, sums@, self.search(final_plan@, state@), (SANITY_LIMIT - count) as nat)
                    == goal,
            invariant
                state.wf(),
                tasks == htn.tasks@,
                types == registry.types@,
                self.htn == htn,
                self.atr == registry,
                self.htn == old(self).htn,
                self.atr == old(self).atr,
                goal == planned_with(*htn, types, sums@, initial_state@),
            ensures
                goal == RunV::Planned(texts_view(final_plan@), self.mtr@),
            decreases SANITY_LIMIT - count,
        {
            let ghost cur = self.search(final_plan@, state@);
            let name = match self.task_stack.pop_front() {
                Some(n) => n,
                None => {
                    break;
                },
            };
            count = count + 1;
            if count > SANITY_LIMIT {
                break;
            }
            let ghost rest = cur.stack.drop_first();
            assert(texts_view(self.task_stack@) =~= rest);
            assert(name@ == cur.stack[0]);
            let ghost next = step(tasks, types, sums@, cur);
            let mut backtrack_needed = false;
            match htn.get_task_by_name(&name) {
                None => {
                    final_plan.clear();
                    assert(texts_view(final_plan@) =~= Seq::<Seq<char>>::empty());
                    break;
                },
                Some(Task::Compound(c)) => {
                    match try_find_method(c, &state, self.method_index, registry) {
                        None => {
                            return PlanOutcome::Failed;
                        },
                        Some(Some(k)) => {
                            let ghost old_mtr = self.mtr@;
                            self.mtr.push(k);
                            let d = DecompositionState {
                                current_task: name,
                                final_plan: copy_texts(&final_plan),
                                next_method_index: k + 1,
                                mtr: copy_indices(&self.mtr),
                            };
                            let ghost old_decomps = self.decomp_stack@;
                            self.decomp_stack.push(d);
                            assert(self.decomp_stack@.map_values(|d: DecompositionState| d@) =~= old_decomps.map_values(
                                |d: DecompositionState| d@,
                            ).push(d@));
                            let subtasks = &c.methods[k].subtasks;
                            push_front_all(&mut self.task_stack, subtasks);
                            assert(texts_view(self.task_stack@) =~= texts_view(subtasks@) + rest);
                            self.method_index = 0;
                            assert(self.search(final_plan@, state@) == match next {
                                StepV::Next(t) => t,
                                _ => cur,
                            });
                        },
                        Some(None) => {
                            backtrack_needed = true;
                        },
                    }
                },
                Some(Task::Primitive(p)) => {
                    match try_conditions_hold(&p.preconditions, &state, registry) {
                        None => {
                            return PlanOutcome::Failed;
                        },
                        Some(true) => {
                            let ghost old_plan = final_plan@;
                            final_plan.push(name);
                            assert(texts_view(final_plan@) =~= texts_view(old_plan).push(name@));
                            match run_effects(&p.effects, &mut state, registry, sums) {
                                EffectsRun::Applied => {},
                                EffectsRun::Fault => {
                                    return PlanOutcome::Failed;
                                },
                                EffectsRun::NeedSum { left, right } => {
                                    return PlanOutcome::NeedSum { left, right };
                                },
                            }
                            match run_effects(&p.expected_effects, &mut state, registry, sums) {
                                EffectsRun::Applied => {},
                                EffectsRun::Fault => {
                                    return PlanOutcome::Failed;
                                },
                                EffectsRun::NeedSum { left, right } => {
                                    return PlanOutcome::NeedSum { left, right };
                                },
                            }
                        },
                        Some(false) => {
                            backtrack_needed = true;
                        },
                    }
                },
            }
            if backtrack_needed {
                match self.decomp_stack.pop() {
                    None => {
                        return PlanOutcome::Failed;
                    },
                    Some(d) => {
                        let ghost dv = d@;
                        final_plan = d.final_plan;
                        self.method_index = d.next_method_index;
                        self.task_stack.push_front(d.current_task);
                        self.mtr = d.mtr;
                        assert(self.decomp_stack@.map_values(|d: DecompositionState| d@) =~= cur.decomps.drop_last());
                        assert(texts_view(self.task_stack@) =~= seq![dv.current_task] + rest);
                    },
                }
            }
        }
        PlanOutcome::Planned(Plan::new(final_plan, copy_indices(&self.mtr)))
    }

    /// Plans the network's root task from `initial_state` without any sum
    /// of `f32` values (see [`planned`]); `None` where the network has no
    /// task or the run meets a fault, a dead end, or an increment of an
    /// `f32` field.
    pub fn try_plan(&mut self, initial_state: &HtnState) -> (r: Option<Plan>)
        requires
            initial_state.wf(),
        ensures
            final(self).network() == old(self).network(),
            final(self).registry() == old(self).registry(),
            match planned(old(self).network(), old(self).registry().types@, initial_state@) {
                None => r is None,
                Some((names, mtr)) => r matches Some(p) && p@ == fresh_plan(p@.id, names, mtr),
            },
    {
        let none: Vec<FloatSum> = Vec::new();
        assert(none@ =~= Seq::<FloatSum>::empty());
        match self.try_plan_with(initial_state, &none) {
            PlanOutcome::Planned(p) => Some(p),
            _ => None,
        }
    }

    /// Plans the network's root task from `initial_state` (see
    /// [`planned`]). The network must have a task, and the run must reach
    /// neither a condition or effect that cannot be evaluated on the
    /// working state, nor a dead end with nothing to backtrack to.
    pub fn plan(&mut self, initial_state: &HtnState) -> (r: Plan)
        requires
            initial_state.wf(),
            planned(old(self).network(), old(self).registry().types@, initial_state@) is Some,
        ensures
            final(self).network() == old(self).network(),
            final(self).registry() == old(self).registry(),
            match planned(old(self).network(), old(self).registry().types@, initial_state@) {
                Some((names, mtr)) => r@ == fresh_plan(r@.id, names, mtr),
                None => false,
            },
    {
        match self.try_plan(initial_state) {
            Some(p) => p,
            None => vstd::pervasive::unreached(),
        }
    }

    fn reset(&mut self)
        ensures
            final(self).htn == old(self).htn,
            final(self).atr == old(self).atr,
            final(self).task_stack@.len() == 0,
            final(self).decomp_stack@.len() == 0,
            final(self).method_index == 0,
            final(self).mtr@.len() == 0,
    {
        self.decomp_stack.clear();
        self.task_stack.clear();
        self.method_index = 0;
        self.mtr.clear();
    }
}

} // verus!
