//! The decisions of the plan supervisor: whether a new plan replaces the
//! running one, what a finished task does to the plan and the state, and
//! which task runs next. Spawning behaviours and sending events is left to
//! the caller.
use vstd::prelude::*;
use crate::model::{HtnState, TypeRegistryModel};
use crate::plan::{mtr_order, names_of, reported, started_next, Plan, PlannedTaskId};
use crate::tasks::{
    all_hold, apply_effects_from, applicable_prefix, conditions_evaluable, effects_applicable,
    effects_applied, lemma_applicable_prefix, task_named, try_conditions_hold, Task, HTN,
};
use crate::text::text;
use std::cmp::Ordering;

verus! {

/// Sent to the character when a task starts or finishes.
#[derive(Debug, Clone, PartialEq)]
pub enum HtnTaskEvent {
    Executing(String),
    Success(String),
    Failure(String),
}

/// Whether the supervisor keeps its running plan rather than the new one:
/// the running plan is still pending and either has the same tasks or
/// ranks higher by its method traversal record.
pub fn keep_existing_plan(existing: Option<&Plan>, new_plan: &Plan) -> (r: bool)
    ensures
        r == (existing matches Some(e) && e@.status is None && (names_of(e@.tasks) == names_of(
            new_plan@.tasks,
        ) || mtr_order(e@.mtr, new_plan@.mtr) == Ordering::Greater)),
{
    match existing {
        None => false,
        Some(e) => {
            if e.status().is_some() {
                return false;
            }
            if *e == *new_plan {
                return true;
            }
            match e.cmp(new_plan) {
                Ordering::Greater => true,
                _ => false,
            }
        },
    }
}

/// What recording a finished task led to.
#[derive(Debug)]
pub enum TaskCompletion {
    /// The task belongs to another plan; nothing changed.
    OtherPlan,
    /// The network has no task of that name; nothing changed.
    UnknownTask,
    /// The result was recorded: the event for the character, and whether
    /// the plan has an outcome (replan) or the next task should run.
    Recorded { event: HtnTaskEvent, replan: bool },
    /// The result was recorded, but this library could not apply all the
    /// effects of the successful task: it applied the first `applied` of
    /// them, and the next one is not applicable to the state or needs
    /// floating-point arithmetic (see
    /// [`crate::effects::Effect::needs_float_arithmetic`]).
    EffectsFault { applied: usize },
}

/// Records that the task `task_id` of `plan` finished. A task of another
/// plan, or of a name the network does not have, changes nothing. Otherwise
/// the plan records the result (see [`reported`]); a successful primitive
/// task applies its effects to the state; the event names the task and
/// the outcome; a plan that now has an outcome asks for a new plan.
pub fn complete_task(
    plan: &mut Plan,
    htn: &HTN,
    state: &mut HtnState,
    registry: &TypeRegistryModel,
    task_id: &PlannedTaskId,
    success: bool,
) -> (r: TaskCompletion)
    requires
        old(state).wf(),
    ensures
        final(state).wf(),
        final(state).record_type == old(state).record_type,
        old(plan)@.id != task_id@.plan_id ==> r is OtherPlan && final(plan)@ == old(plan)@
            && final(state)@ == old(state)@,
        old(plan)@.id == task_id@.plan_id && task_named(htn.tasks@, task_id@.name) is None ==> r is UnknownTask
            && final(plan)@ == old(plan)@ && final(state)@ == old(state)@,
        old(plan)@.id == task_id@.plan_id && task_named(htn.tasks@, task_id@.name) is Some ==> {
            &&& final(plan)@ == reported(old(plan)@, task_id@, success)
            &&& match task_named(htn.tasks@, task_id@.name) {
                Some(Task::Primitive(p)) => if success {
                    if effects_applicable(p.effects@, old(state)@, registry.types@) {
                        final(state)@ == effects_applied(p.effects@, old(state)@)
                            && r is Recorded
                    } else {
                        r matches TaskCompletion::EffectsFault { applied } && applied
                            == applicable_prefix(p.effects@, old(state)@, registry.types@)
                            && applied < p.effects@.len() && final(state)@ == effects_applied(
                            p.effects@.take(applied as int),
                            old(state)@,
                        )
                    }
                } else {
                    final(state)@ == old(state)@ && r is Recorded
                },
                _ => final(state)@ == old(state)@ && r is Recorded,
            }
        },
        r matches TaskCompletion::Recorded { event, replan } ==> {
            &&& replan == final(plan)@.status is Some
            &&& match event {
                HtnTaskEvent::Success(n) => success && n@ == task_id@.name,
                HtnTaskEvent::Failure(n) => !success && n@ == task_id@.name,
                HtnTaskEvent::Executing(_) => false,
            }
        },
{
    if plan.id() != task_id.plan_id() {
        return TaskCompletion::OtherPlan;
    }
    let name = text(task_id.name());
    let task = match htn.get_task_by_name(&name) {
        None => {
            return TaskCompletion::UnknownTask;
        },
        Some(t) => t,
    };
    plan.report_task_completion(task_id, success);
    let event = if success {
        HtnTaskEvent::Success(name)
    } else {
        HtnTaskEvent::Failure(name)
    };
    if success {
        match task {
            Task::Primitive(p) => {
                proof {
                    lemma_applicable_prefix(p.effects@, state@, registry.types@);
                    assert(p.effects@.skip(0) =~= p.effects@);
                }
                let applied = apply_effects_from(&p.effects, 0, state, registry);
                assert(p.effects@.subrange(0, applied as int) =~= p.effects@.take(applied as int));
                if applied < p.effects.len() {
                    return TaskCompletion::EffectsFault { applied };
                }
                assert(p.effects@.take(applied as int) =~= p.effects@);
            },
            Task::Compound(_) => {},
        }
    }
    let replan = plan.status().is_some();
    TaskCompletion::Recorded { event, replan }
}

/// What the supervisor does when asked to run the next task.
#[derive(Debug)]
pub enum NextTask {
    /// The plan has an outcome or every task was started.
    NoTask,
    /// The task is not a primitive task of the network.
    NotPrimitive(PlannedTaskId),
    /// A precondition of the task cannot be evaluated on the state.
    ConditionFault(PlannedTaskId),
    /// The task's preconditions do not hold: the plan was aborted and a
    /// new plan is wanted.
    Aborted(PlannedTaskId),
    /// The task, now running, is to be carried out by its operator.
    Execute(PlannedTaskId),
}

/// Starts the next task of the plan (see [`started_next`]) and decides
/// what to do with it: run it when it is a primitive task whose
/// preconditions hold on the state, otherwise abort the plan.
pub fn next_task(plan: &mut Plan, htn: &HTN, state: &HtnState, registry: &TypeRegistryModel) -> (r: NextTask)
    requires
        state.wf(),
    ensures
        started_next(old(plan)@).1 is None ==> r is NoTask && final(plan)@ == old(plan)@,
        started_next(old(plan)@).1 matches Some(id) ==> match task_named(htn.tasks@, id.name) {
            Some(Task::Primitive(p)) => if !conditions_evaluable(
                p.preconditions@,
                state@,
                registry.types@,
            ) {
                r matches NextTask::ConditionFault(t) && t@ == id
                    && final(plan)@ == started_next(old(plan)@).0
            } else if all_hold(p.preconditions@, state@) {
                r matches NextTask::Execute(t) && t@ == id
                    && final(plan)@ == started_next(old(plan)@).0
            } else {
                r matches NextTask::Aborted(t) && t@ == id && final(plan)@.status == Some(false)
                    && final(plan)@.tasks == started_next(old(plan)@).0.tasks
            },
            _ => r matches NextTask::NotPrimitive(t) && t@ == id
                && final(plan)@ == started_next(old(plan)@).0,
        },
{
    let id = match plan.execute_next_task() {
        None => {
            return NextTask::NoTask;
        },
        Some(id) => id,
    };
    let name = text(id.name());
    match htn.get_task_by_name(&name) {
        Some(Task::Primitive(p)) => match try_conditions_hold(&p.preconditions, state, registry) {
            None => NextTask::ConditionFault(id),
            Some(true) => NextTask::Execute(id),
            Some(false) => {
                plan.abort();
                NextTask::Aborted(id)
            },
        },
        _ => NextTask::NotPrimitive(id),
    }
}

} // verus!
