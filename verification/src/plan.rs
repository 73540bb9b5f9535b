//! A plan: the primitive tasks a planner chose, in order, with the method
//! traversal record that produced it, and the progress of carrying it out.
use vstd::prelude::*;
use rand::Rng;
use std::cmp::Ordering;
use vstd::std_specs::cmp::PartialEqSpecImpl;
use vstd::std_specs::cmp::PartialOrdSpecImpl;
use crate::text::{append_item, comma_joined, decimal_digits, join, lemma_comma_joined_push, text, usize_text};

verus! {

/// Where a task of a plan stands.
#[derive(Debug, Clone, Copy, PartialEq, Eq, Structural)]
pub enum TaskStatus {
    NotStarted,
    Running,
    Success,
    Failure,
}

/// A unique id of a task in a plan: the plan's id, the task's position in
/// the plan and its name.
#[derive(Debug)]
pub struct PlannedTaskId {
    plan_id: u32,
    index: usize,
    name: String,
}

/// The model of a [`PlannedTaskId`].
pub struct PlannedTaskIdV {
    pub plan_id: u32,
    pub index: usize,
    pub name: Seq<char>,
}

impl View for PlannedTaskId {
    type V = PlannedTaskIdV;

    closed spec fn view(&self) -> PlannedTaskIdV {
        PlannedTaskIdV { plan_id: self.plan_id, index: self.index, name: self.name@ }
    }
}

impl Clone for PlannedTaskId {
    fn clone(&self) -> (r: Self)
        ensures
            r@ == self@,
    {
        PlannedTaskId { plan_id: self.plan_id, index: self.index, name: self.name.clone() }
    }
}

impl PlannedTaskId {
    /// The id of the task at `index` in the plan `plan_id`.
    pub fn new(plan_id: u32, index: usize, name: String) -> (r: PlannedTaskId)
        ensures
            r@ == (PlannedTaskIdV { plan_id, index, name: name@ }),
    {
        PlannedTaskId { plan_id, index, name }
    }

    /// The id of the plan.
    pub fn plan_id(&self) -> (r: u32)
        ensures
            r == self@.plan_id,
    {
        self.plan_id
    }

    /// The position of the task in the plan.
    pub fn index(&self) -> (r: usize)
        ensures
            r == self@.index,
    {
        self.index
    }

    /// The name of the task.
    pub fn name(&self) -> (r: &str)
        ensures
            r@ == self@.name,
    {
        self.name.as_str()
    }

    /// Whether two ids are the same: plan, position and name.
    pub fn same_as(&self, other: &PlannedTaskId) -> (r: bool)
        ensures
            r <==> self@ == other@,
    {
        self.plan_id == other.plan_id && self.index == other.index && self.name == other.name
    }
}

/// A task of a plan: its id, its name and where it stands.
#[derive(Debug)]
pub struct PlannedTask {
    pub id: PlannedTaskId,
    pub name: String,
    pub status: TaskStatus,
}

/// The model of a [`PlannedTask`].
pub struct PlannedTaskV {
    pub id: PlannedTaskIdV,
    pub name: Seq<char>,
    pub status: TaskStatus,
}

impl View for PlannedTask {
    type V = PlannedTaskV;

    open spec fn view(&self) -> PlannedTaskV {
        PlannedTaskV { id: self.id@, name: self.name@, status: self.status }
    }
}

impl Clone for PlannedTask {
    fn clone(&self) -> (r: Self)
        ensures
            r@ == self@,
    {
        PlannedTask { id: self.id.clone(), name: self.name.clone(), status: self.status }
    }
}

/// A sequence of primitive tasks to carry out in order.
#[derive(Debug)]
pub struct Plan {
    plan_id: u32,
    next_task_index: usize,
    pub tasks: Vec<PlannedTask>,
    mtr: Vec<usize>,
    status: Option<bool>,
}

/// The model of a [`Plan`]: its id, the position of the next task to
/// start, its tasks, its method traversal record, and its outcome (`None`
/// while pending, `Some(true)` on success, `Some(false)` on failure).
pub struct PlanV {
    pub id: u32,
    pub next: usize,
    pub tasks: Seq<PlannedTaskV>,
    pub mtr: Seq<usize>,
    pub status: Option<bool>,
}

impl View for Plan {
    type V = PlanV;

    closed spec fn view(&self) -> PlanV {
        PlanV {
            id: self.plan_id,
            next: self.next_task_index,
            tasks: self.tasks@.map_values(|t: PlannedTask| t@),
            mtr: self.mtr@,
            status: self.status,
        }
    }
}

impl Plan {
    /// A plan's tasks fit in memory: there are at most `usize::MAX` of them.
    pub proof fn lemma_tasks_fit(&self)
        ensures
            self@.tasks.len() <= usize::MAX,
    {
        assert(self.tasks.len() == self.tasks@.len());
    }
}

/// The names of a plan's tasks, in order.
pub open spec fn names_of(tasks: Seq<PlannedTaskV>) -> Seq<Seq<char>> {
    tasks.map_values(|t: PlannedTaskV| t.name)
}

/// A fresh plan with id `id` over the task names `names`: every task not
/// started, its id made of the plan id, its position and its name.
pub open spec fn fresh_plan(id: u32, names: Seq<Seq<char>>, mtr: Seq<usize>) -> PlanV {
    PlanV {
        id,
        next: 0,
        tasks: Seq::new(
            names.len(),
            |i: int|
                PlannedTaskV {
                    id: PlannedTaskIdV { plan_id: id, index: i as usize, name: names[i] },
                    name: names[i],
                    status: TaskStatus::NotStarted,
                },
        ),
        mtr,
        status: None,
    }
}

/// `p` with the status of task `i` set to `s`.
pub open spec fn with_status(p: PlanV, i: int, s: TaskStatus) -> Seq<PlannedTaskV> {
    p.tasks.update(i, PlannedTaskV { status: s, ..p.tasks[i] })
}

/// Starting the next task: nothing happens once the plan has an outcome or
/// when every task was started; otherwise the next task runs and its id is
/// handed out.
pub open spec fn started_next(p: PlanV) -> (PlanV, Option<PlannedTaskIdV>) {
    if p.status is Some || p.next >= p.tasks.len() {
        (p, None)
    } else {
        (
            PlanV {
                tasks: with_status(p, p.next as int, TaskStatus::Running),
                next: (p.next + 1) as usize,
                ..p
            },
            Some(p.tasks[p.next as int].id),
        )
    }
}

/// The model of an optional task id.
pub open spec fn opt_id(r: Option<PlannedTaskId>) -> Option<PlannedTaskIdV> {
    match r {
        Some(x) => Some(x@),
        None => None,
    }
}

/// Position of the first task whose id is `id`.
pub open spec fn find_task(tasks: Seq<PlannedTaskV>, id: PlannedTaskIdV) -> Option<int>
    decreases tasks.len(),
{
    if tasks.len() == 0 {
        None
    } else if tasks.last().id == id && find_task(tasks.drop_last(), id) is None {
        Some(tasks.len() - 1)
    } else {
        find_task(tasks.drop_last(), id)
    }
}

/// Reporting that the task `id` finished: nothing happens once the plan
/// has an outcome. A failure marks the task and fails the plan. A success
/// marks the task and makes the task after it the next one. An id that is
/// not in the plan changes nothing. Then, when no task is left to start,
/// the plan succeeds.
pub open spec fn reported(p: PlanV, id: PlannedTaskIdV, success: bool) -> PlanV {
    if p.status is Some {
        p
    } else {
        match find_task(p.tasks, id) {
            Some(i) => if !success {
                PlanV { tasks: with_status(p, i, TaskStatus::Failure), status: Some(false), ..p }
            } else {
                let q = PlanV {
                    tasks: with_status(p, i, TaskStatus::Success),
                    next: (i + 1) as usize,
                    ..p
                };
                completed(q)
            },
            None => completed(p),
        }
    }
}

/// The plan succeeds when no task is left to start.
pub open spec fn completed(p: PlanV) -> PlanV {
    if p.next >= p.tasks.len() {
        PlanV { status: Some(true), ..p }
    } else {
        p
    }
}

/// How two method traversal records order plans: the first position where
/// they differ decides, the lower index ranking higher (`Greater`); when one
/// is a prefix of the other, the shorter ranks higher.
pub open spec fn mtr_order(a: Seq<usize>, b: Seq<usize>) -> Ordering
    decreases a.len(),
{
    if a.len() == 0 || b.len() == 0 {
        if a.len() < b.len() {
            Ordering::Greater
        } else if a.len() == b.len() {
            Ordering::Equal
        } else {
            Ordering::Less
        }
    } else if a[0] < b[0] {
        Ordering::Greater
    } else if a[0] > b[0] {
        Ordering::Less
    } else {
        mtr_order(a.drop_first(), b.drop_first())
    }
}

/// "Plan MTR: [m, ...] Tasks: [name, ...]": how a plan describes itself.
pub open spec fn plan_text(p: PlanV) -> Seq<char> {
    "Plan MTR: ["@ + comma_joined(p.mtr.map_values(|m: usize| decimal_digits(m as nat))) + "] Tasks: ["@
        + comma_joined(names_of(p.tasks)) + "]"@
}

/// Draws a plan id from `rand`'s thread-local generator (`rand::rng()`,
/// then `Rng::random::<u32>()`). Nothing is stated of the value: it is
/// random.
#[verifier::external_body]
fn random_plan_id() -> (r: u32) {
    rand::rng().random::<u32>()
}

impl Plan {
    /// A new pending plan over the task names, with a random id.
    pub fn new(tasks: Vec<String>, mtr: Vec<usize>) -> (r: Plan)
        ensures
            r@ == fresh_plan(r@.id, tasks@.map_values(|t: String| t@), mtr@),
    {
        let plan_id = random_plan_id();
        Plan::with_id(plan_id, tasks, mtr)
    }

    /// A new pending plan over the task names, with the id `plan_id`.
    #[verifier::rlimit(30)]
    pub fn with_id(plan_id: u32, tasks: Vec<String>, mtr: Vec<usize>) -> (r: Plan)
        ensures
            r@ == fresh_plan(plan_id, tasks@.map_values(|t: String| t@), mtr@),
    {
        let ghost names = tasks@.map_values(|t: String| t@);
        let mut planned: Vec<PlannedTask> = Vec::new();
        let mut idx: usize = 0;
        while idx < tasks.len()
            invariant
                0 <= idx <= tasks@.len(),
                names == tasks@.map_values(|t: String| t@),
                planned@.map_values(|t: PlannedTask| t@) =~= fresh_plan(plan_id, names, mtr@).tasks.take(
                    idx as int,
                ),
            decreases tasks@.len() - idx,
        {
            let name = tasks[idx].clone();
            let t = PlannedTask {
                name: name.clone(),
                status: TaskStatus::NotStarted,
                id: PlannedTaskId::new(plan_id, idx, name),
            };
            let ghost before = planned@;
            planned.push(t);
            assert(planned@.map_values(|t: PlannedTask| t@) =~= before.map_values(
                |t: PlannedTask| t@,
            ).push(t@));
            idx = idx + 1;
        }
        let r = Plan { plan_id, next_task_index: 0, tasks: planned, mtr, status: None };
        assert(r@.tasks =~= fresh_plan(plan_id, names, mtr@).tasks);
        r
    }

    /// The plan's id.
    pub fn id(&self) -> (r: u32)
        ensures
            r == self@.id,
    {
        self.plan_id
    }

    /// The method traversal record: for each decomposition, the index of
    /// the method used.
    pub fn mtr(&self) -> (r: &[usize])
        ensures
            r@ == self@.mtr,
    {
        self.mtr.as_slice()
    }

    /// `None` while pending, `Some(true)` on success, `Some(false)` on
    /// failure.
    pub fn status(&self) -> (r: Option<bool>)
        ensures
            r == self@.status,
    {
        self.status
    }

    /// The names of the tasks, in order.
    pub fn task_names(&self) -> (r: Vec<String>)
        ensures
            r@.map_values(|t: String| t@) == names_of(self@.tasks),
    {
        let mut out: Vec<String> = Vec::new();
        let mut i: usize = 0;
        while i < self.tasks.len()
            invariant
                0 <= i <= self.tasks@.len(),
                out@.map_values(|t: String| t@) =~= names_of(self@.tasks).take(i as int),
            decreases self.tasks@.len() - i,
        {
            let ghost before = out@;
            out.push(self.tasks[i].name.clone());
            assert(out@.map_values(|t: String| t@) =~= before.map_values(|t: String| t@).push(
                self.tasks@[i as int].name@,
            ));
            i = i + 1;
        }
        assert(names_of(self@.tasks).take(i as int) =~= names_of(self@.tasks));
        out
    }

    /// The plan's method traversal record and task names (see
    /// [`plan_text`]).
    #[verifier::rlimit(30)]
    pub fn to_string(&self) -> (r: String)
        ensures
            r@ == plan_text(self@),
    {
        let ghost ms = self@.mtr.map_values(|m: usize| decimal_digits(m as nat));
        let ghost ns = names_of(self@.tasks);
        let mut mtr_list = String::new();
        let mut i: usize = 0;
        while i < self.mtr.len()
            invariant
                0 <= i <= self.mtr@.len(),
                ms == self@.mtr.map_values(|m: usize| decimal_digits(m as nat)),
                mtr_list@ == comma_joined(ms.take(i as int)),
            decreases self.mtr@.len() - i,
        {
            proof {
                lemma_comma_joined_push(ms, i as int);
            }
            let t = usize_text(self.mtr[i]);
            mtr_list = append_item(mtr_list, i, t.as_str());
            i = i + 1;
        }
        assert(ms.take(i as int) =~= ms);
        let mut task_list = String::new();
        let mut j: usize = 0;
        while j < self.tasks.len()
            invariant
                0 <= j <= self.tasks@.len(),
                ns == names_of(self@.tasks),
                task_list@ == comma_joined(ns.take(j as int)),
            decreases self.tasks@.len() - j,
        {
            proof {
                lemma_comma_joined_push(ns, j as int);
            }
            task_list = append_item(task_list, j, self.tasks[j].name.as_str());
            j = j + 1;
        }
        assert(ns.take(j as int) =~= ns);
        let r = join(text("Plan MTR: ["), mtr_list.as_str());
        let r = join(r, "] Tasks: [");
        let r = join(r, task_list.as_str());
        join(r, "]")
    }

    /// Fails the plan.
    pub fn abort(&mut self)
        ensures
            final(self)@ == (PlanV { status: Some(false), ..old(self)@ }),
    {
        self.status = Some(false);
    }

    /// Marks the next task as running and returns its id; `None` once the
    /// plan has an outcome or every task was started.
    pub fn execute_next_task(&mut self) -> (r: Option<PlannedTaskId>)
        ensures
            final(self)@ == started_next(old(self)@).0,
            opt_id(r) == started_next(old(self)@).1,
    {
        if self.status.is_some() {
            return None;
        }
        if self.next_task_index >= self.tasks.len() {
            return None;
        }
        let i = self.next_task_index;
        let t = PlannedTask {
            id: self.tasks[i].id.clone(),
            name: self.tasks[i].name.clone(),
            status: TaskStatus::Running,
        };
        let id = self.tasks[i].id.clone();
        let ghost before = self.tasks@;
        self.tasks.set(i, t);
        self.next_task_index = i + 1;
        assert(self@.tasks =~= with_status(old(self)@, i as int, TaskStatus::Running));
        Some(id)
    }

    /// Records that the task `task_id` finished, successfully or not (see
    /// [`reported`]).
    #[verifier::rlimit(30)]
    pub fn report_task_completion(&mut self, task_id: &PlannedTaskId, success: bool)
        ensures
            final(self)@ == reported(old(self)@, task_id@, success),
    {
        if self.status.is_some() {
            return;
        }
        let mut i: usize = 0;
        let mut found: Option<usize> = None;
        while i < self.tasks.len()
            invariant
                0 <= i <= self.tasks@.len(),
                self.tasks@ == old(self).tasks@,
                found is None ==> find_task(self@.tasks.take(i as int), task_id@) is None,
                found matches Some(k) ==> find_task(self@.tasks.take(i as int), task_id@) == Some(k as int) && k < i,
            decreases self.tasks@.len() - i,
        {
            proof {
                assert(self@.tasks.take(i + 1).drop_last() =~= self@.tasks.take(i as int));
            }
            if found.is_none() && self.tasks[i].id.same_as(task_id) {
                found = Some(i);
            }
            proof {
                lemma_find_task_extend(self@.tasks, task_id@, i as int);
            }
            i = i + 1;
        }
        assert(self@.tasks.take(i as int) =~= self@.tasks);
        match found {
            Some(idx) => {
                let status = if success {
                    TaskStatus::Success
                } else {
                    TaskStatus::Failure
                };
                let t = PlannedTask {
                    id: self.tasks[idx].id.clone(),
                    name: self.tasks[idx].name.clone(),
                    status,
                };
                self.tasks.set(idx, t);
                assert(self@.tasks =~= with_status(old(self)@, idx as int, status));
                if !success {
                    self.status = Some(false);
                    return;
                }
                self.next_task_index = idx + 1;
            },
            None => {},
        }
        if self.next_task_index >= self.tasks.len() {
            self.status = Some(true);
        }
    }

    /// How this plan ranks against `other` by their method traversal
    /// records (see [`mtr_order`]).
    pub fn cmp(&self, other: &Plan) -> (r: Ordering)
        ensures
            r == mtr_order(self@.mtr, other@.mtr),
    {
        let a = &self.mtr;
        let b = &other.mtr;
        let mut i: usize = 0;
        let ghost mut ra = a@;
        let ghost mut rb = b@;
        while i < a.len() && i < b.len()
            invariant
                0 <= i <= a@.len(),
                i <= b@.len(),
                a@ == self@.mtr,
                b@ == other@.mtr,
                ra.len() + i == a@.len(),
                rb.len() + i == b@.len(),
                forall|j: int| 0 <= j < ra.len() ==> ra[j] == a@[j + i],
                forall|j: int| 0 <= j < rb.len() ==> rb[j] == b@[j + i],
                mtr_order(a@, b@) == mtr_order(ra, rb),
            decreases a@.len() - i,
        {
            let x = a[i];
            let y = b[i];
            assert(ra[0] == x && rb[0] == y) by {
                assert(ra[0] == a@[0 + i]);
                assert(rb[0] == b@[0 + i]);
            }
            if x < y {
                assert(mtr_order(ra, rb) == Ordering::Greater);
                return Ordering::Greater;
            }
            if x > y {
                assert(mtr_order(ra, rb) == Ordering::Less);
                return Ordering::Less;
            }
            proof {
                ra = ra.drop_first();
                rb = rb.drop_first();
            }
            i = i + 1;
        }
        if a.len() - i < b.len() - i {
            Ordering::Greater
        } else if a.len() - i == b.len() - i {
            Ordering::Equal
        } else {
            Ordering::Less
        }
    }
}

proof fn lemma_find_task_extend(tasks: Seq<PlannedTaskV>, id: PlannedTaskIdV, i: int)
    requires
        0 <= i < tasks.len(),
    ensures
        find_task(tasks.take(i + 1), id) == (match find_task(tasks.take(i), id) {
            Some(k) => Some(k),
            None => if tasks[i].id == id {
                Some(i)
            } else {
                None
            },
        }),
{
    assert(tasks.take(i + 1).drop_last() =~= tasks.take(i));
}

impl PartialEq for Plan {
    fn eq(&self, other: &Self) -> (r: bool) {
        if self.tasks.len() != other.tasks.len() {
            assert(names_of(self@.tasks).len() != names_of(other@.tasks).len());
            return false;
        }
        let mut i: usize = 0;
        while i < self.tasks.len()
            invariant
                self.tasks@.len() == other.tasks@.len(),
                0 <= i <= self.tasks@.len(),
                forall|j: int| 0 <= j < i ==> #[trigger] self.tasks@[j].name@ == other.tasks@[j].name@,
            decreases self.tasks@.len() - i,
        {
            if self.tasks[i].name != other.tasks[i].name {
                assert(names_of(self@.tasks)[i as int] != names_of(other@.tasks)[i as int]);
                return false;
            }
            i = i + 1;
        }
        assert(names_of(self@.tasks) =~= names_of(other@.tasks));
        true
    }
}

impl PartialEqSpecImpl for Plan {
    open spec fn obeys_eq_spec() -> bool {
        true
    }

    open spec fn eq_spec(&self, other: &Plan) -> bool {
        names_of(self@.tasks) == names_of(other@.tasks)
    }
}

impl Eq for Plan {
}

impl PartialOrd for Plan {
    fn partial_cmp(&self, other: &Self) -> (r: Option<Ordering>) {
        Some(self.cmp(other))
    }
}

impl PartialOrdSpecImpl for Plan {
    open spec fn obeys_partial_cmp_spec() -> bool {
        true
    }

    open spec fn partial_cmp_spec(&self, other: &Plan) -> Option<Ordering> {
        Some(mtr_order(self@.mtr, other@.mtr))
    }
}

/// Once a plan has an outcome, starting a task and reporting a result
/// change nothing.
pub proof fn law_outcome_is_final(p: PlanV, id: PlannedTaskIdV, success: bool)
    requires
        p.status is Some,
    ensures
        started_next(p) == (p, None::<PlannedTaskIdV>),
        reported(p, id, success) == p,
{
}

/// `find_task` finds a task with the id it was asked for.
pub proof fn lemma_find_task_sound(tasks: Seq<PlannedTaskV>, id: PlannedTaskIdV)
    ensures
        find_task(tasks, id) matches Some(i) ==> 0 <= i < tasks.len() && tasks[i].id == id,
    decreases tasks.len(),
{
    if tasks.len() > 0 {
        lemma_find_task_sound(tasks.drop_last(), id);
    }
}

/// The only task with an id is the one `find_task` finds.
pub proof fn lemma_find_task_unique(tasks: Seq<PlannedTaskV>, id: PlannedTaskIdV, j: int)
    requires
        0 <= j < tasks.len(),
        tasks[j].id == id,
        forall|k: int| 0 <= k < tasks.len() && k != j ==> #[trigger] tasks[k].id != id,
    ensures
        find_task(tasks, id) == Some(j),
    decreases tasks.len(),
{
    let rest = tasks.drop_last();
    lemma_find_task_sound(rest, id);
    if j < tasks.len() - 1 {
        assert forall|k: int| 0 <= k < rest.len() && k != j implies #[trigger] rest[k].id != id by {
            assert(rest[k] == tasks[k]);
        }
        lemma_find_task_unique(rest, id, j);
    }
}

/// A failure report for a task of a pending plan fails the plan and marks
/// the task failed.
pub proof fn law_failure_fails_plan(p: PlanV, id: PlannedTaskIdV)
    requires
        p.status is None,
        find_task(p.tasks, id) is Some,
    ensures
        reported(p, id, false).status == Some(false),
        reported(p, id, false).tasks[find_task(p.tasks, id).unwrap()].status == TaskStatus::Failure,
{
    lemma_find_task_sound(p.tasks, id);
}

/// A success report for a task of a pending plan marks the task done and
/// makes the task after it the next one; the plan succeeds exactly when
/// that was its last task. (Of a [`Plan`], [`Plan::lemma_tasks_fit`] gives
/// the bound on its length.)
pub proof fn law_success_advances(p: PlanV, id: PlannedTaskIdV)
    requires
        p.status is None,
        p.tasks.len() <= usize::MAX,
        find_task(p.tasks, id) is Some,
    ensures
        ({
            let i = find_task(p.tasks, id).unwrap();
            let q = reported(p, id, true);
            &&& q.tasks[i].status == TaskStatus::Success
            &&& q.next == i + 1
            &&& q.status == (if i + 1 >= p.tasks.len() { Some(true) } else { None })
        }),
{
    lemma_find_task_sound(p.tasks, id);
}

/// The tasks of a fresh plan have distinct ids, each made of the plan's
/// id, the task's position and its name.
pub proof fn law_fresh_ids_unique(id: u32, names: Seq<Seq<char>>, mtr: Seq<usize>, i: int, j: int)
    requires
        names.len() <= usize::MAX,
        0 <= i < names.len(),
        0 <= j < names.len(),
        i != j,
    ensures
        fresh_plan(id, names, mtr).tasks[i].id != fresh_plan(id, names, mtr).tasks[j].id,
        fresh_plan(id, names, mtr).tasks[i].id == (PlannedTaskIdV {
            plan_id: id,
            index: i as usize,
            name: names[i],
        }),
{
}

/// `k` rounds of starting the next task and reporting it done.
pub open spec fn run_tasks(p: PlanV, k: nat) -> PlanV
    decreases k,
{
    if k == 0 {
        p
    } else {
        match started_next(p) {
            (q, Some(id)) => run_tasks(reported(q, id, true), (k - 1) as nat),
            (q, None) => q,
        }
    }
}

/// After `j` rounds on the fresh plan: pending (unless it had no task),
/// the first `j` tasks done, the others not started.
pub open spec fn ran(p: PlanV, id: u32, names: Seq<Seq<char>>, mtr: Seq<usize>, j: int) -> bool {
    let f = fresh_plan(id, names, mtr);
    &&& p.id == id
    &&& p.mtr == mtr
    &&& p.next == j
    &&& p.tasks.len() == names.len()
    &&& forall|k: int| 0 <= k < names.len() ==> (#[trigger] p.tasks[k]).id == f.tasks[k].id
        && p.tasks[k].name == names[k]
    &&& forall|k: int| 0 <= k < j ==> (#[trigger] p.tasks[k]).status == TaskStatus::Success
    &&& forall|k: int| j <= k < names.len() ==> (#[trigger] p.tasks[k]).status
        == TaskStatus::NotStarted
}

proof fn lemma_run_tasks(p: PlanV, id: u32, names: Seq<Seq<char>>, mtr: Seq<usize>, j: nat)
    requires
        0 <= j < names.len(),
        names.len() <= usize::MAX,
        ran(p, id, names, mtr, j as int),
        p.status is None,
    ensures
        ran(run_tasks(p, (names.len() - j) as nat), id, names, mtr, names.len() as int),
        run_tasks(p, (names.len() - j) as nat).status == Some(true),
    decreases names.len() - j,
{
    let f = fresh_plan(id, names, mtr);
    let (q, tid) = started_next(p);
    let x = p.tasks[j as int].id;
    assert(tid == Some(x));
    assert forall|k: int| 0 <= k < q.tasks.len() && k != j implies #[trigger] q.tasks[k].id != x by {
        assert(q.tasks[k].id == f.tasks[k].id);
    }
    lemma_find_task_unique(q.tasks, x, j as int);
    let r = reported(q, x, true);
    if j + 1 < names.len() {
        assert(ran(r, id, names, mtr, j as int + 1));
        lemma_run_tasks(r, id, names, mtr, (j + 1) as nat);
        assert(run_tasks(p, (names.len() - j) as nat) == run_tasks(r, (names.len() - j - 1) as nat));
    } else {
        assert(run_tasks(r, 0) == r);
        assert(ran(r, id, names, mtr, names.len() as int));
    }
}

/// Starting every task of a fresh plan in turn and reporting each done
/// completes the plan: it succeeds, and every task is marked done.
pub proof fn law_all_done_completes(id: u32, names: Seq<Seq<char>>, mtr: Seq<usize>)
    requires
        0 < names.len() <= usize::MAX,
    ensures
        run_tasks(fresh_plan(id, names, mtr), names.len()).status == Some(true),
        forall|k: int| 0 <= k < names.len() ==> (#[trigger] run_tasks(fresh_plan(id, names, mtr), names.len()).tasks[k]).status
            == TaskStatus::Success,
{
    lemma_run_tasks(fresh_plan(id, names, mtr), id, names, mtr, 0);
}

/// The opposite of an ordering.
pub open spec fn opposite(o: Ordering) -> Ordering {
    match o {
        Ordering::Less => Ordering::Greater,
        Ordering::Equal => Ordering::Equal,
        Ordering::Greater => Ordering::Less,
    }
}

/// Swapping two records turns their order around.
pub proof fn law_mtr_order_antisymmetric(a: Seq<usize>, b: Seq<usize>)
    ensures
        mtr_order(a, b) == opposite(mtr_order(b, a)),
    decreases a.len(),
{
    if a.len() > 0 && b.len() > 0 && a[0] == b[0] {
        law_mtr_order_antisymmetric(a.drop_first(), b.drop_first());
    }
}

/// Two records rank equal exactly when they are the same.
pub proof fn law_mtr_order_equal(a: Seq<usize>, b: Seq<usize>)
    ensures
        (mtr_order(a, b) == Ordering::Equal) <==> a == b,
    decreases a.len(),
{
    if a.len() > 0 && b.len() > 0 {
        if a[0] == b[0] {
            law_mtr_order_equal(a.drop_first(), b.drop_first());
            if a.drop_first() == b.drop_first() {
                assert(a =~= seq![a[0]] + a.drop_first());
                assert(b =~= seq![b[0]] + b.drop_first());
            }
        }
    } else if a.len() == 0 && b.len() == 0 {
        assert(a =~= b);
    }
}

/// Ranking higher is transitive.
pub proof fn law_mtr_order_transitive(a: Seq<usize>, b: Seq<usize>, c: Seq<usize>)
    requires
        mtr_order(a, b) == Ordering::Greater,
        mtr_order(b, c) == Ordering::Greater,
    ensures
        mtr_order(a, c) == Ordering::Greater,
    decreases a.len(),
{
    if a.len() > 0 && b.len() > 0 && c.len() > 0 && a[0] == b[0] && b[0] == c[0] {
        law_mtr_order_transitive(a.drop_first(), b.drop_first(), c.drop_first());
    }
}

} // verus!
