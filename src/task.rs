//! Tasks: a tree of named tasks with deadlines, importance, a status and
//! progress notes.
use vstd::prelude::*;
use crate::progress::{Completion, ProgressNote};

verus! {

/// Declares `uuid::Uuid`, carried as an opaque task identifier.
#[verifier::external_type_specification]
#[verifier::external_body]
pub struct ExUuid(uuid::Uuid);

/// Relies on `uuid::Uuid::new_v4`: a fresh random identifier. Nothing is
/// known of its value.
#[verifier::external_body]
fn fresh_id() -> (r: uuid::Uuid) {
    uuid::Uuid::new_v4()
}

/// How important a task is, from least to most.
#[derive(Debug, PartialEq, Eq, Structural, PartialOrd, Ord, Copy, Clone)]
pub enum TaskImportance {
    /// Lowest priority, hardly more than an idea.
    Casual,
    /// Has to get done, without hurry.
    Normal,
    /// Has to get done within a strict time frame.
    Important,
    /// Has to get done as soon as possible.
    Critical,
}

/// Where a task stands.
#[derive(Debug, PartialEq, Eq, Structural, PartialOrd, Ord, Copy, Clone)]
pub enum TaskStatus {
    /// Being worked on.
    InProgress,
    /// Waiting to be taken up again.
    OnHold,
    /// Finished.
    Completed,
}

/// A task and its subtasks.
#[derive(Debug)]
pub struct Task {
    id: uuid::Uuid,
    name: String,
    deadline: Option<i64>,
    importance: TaskImportance,
    status: TaskStatus,
    subtasks: Vec<Task>,
    notes: Vec<ProgressNote>,
}

/// The fields of a task still to be built; what is left out takes a default.
pub struct TaskBuilder {
    /// The name; `new task...` when left out.
    pub name: Option<String>,
    /// The deadline, in milliseconds since the Unix epoch; none when left out.
    pub deadline: Option<i64>,
    /// The importance; `Normal` when left out.
    pub importance: Option<TaskImportance>,
    /// The status; `InProgress` when left out.
    pub status: Option<TaskStatus>,
    /// The subtasks, in order.
    pub subtasks: Vec<TaskBuilder>,
}

impl TaskBuilder {
    /// A builder with every field left out.
    pub fn new() -> (r: Self)
        ensures
            r.name is None,
            r.deadline is None,
            r.importance is None,
            r.status is None,
            r.subtasks@.len() == 0,
    {
        TaskBuilder { name: None, deadline: None, importance: None, status: None, subtasks: Vec::new() }
    }

    /// The builder with its name set to `val`.
    pub fn name(self, val: &str) -> (r: Self)
        ensures
            r.name is Some && r.name->0@ == val@,
            r.deadline == self.deadline,
            r.importance == self.importance,
            r.status == self.status,
            r.subtasks == self.subtasks,
    {
        TaskBuilder { name: Some(val.to_owned()), ..self }
    }

    /// The builder with its deadline set to `val`, in milliseconds since the
    /// Unix epoch.
    pub fn deadline(self, val: i64) -> (r: Self)
        ensures
            r.name == self.name,
            r.deadline == Some(val),
            r.importance == self.importance,
            r.status == self.status,
            r.subtasks == self.subtasks,
    {
        TaskBuilder { deadline: Some(val), ..self }
    }

    /// The builder with its importance set to `val`.
    pub fn importance(self, val: TaskImportance) -> (r: Self)
        ensures
            r.name == self.name,
            r.deadline == self.deadline,
            r.importance == Some(val),
            r.status == self.status,
            r.subtasks == self.subtasks,
    {
        TaskBuilder { importance: Some(val), ..self }
    }

    /// The builder with its status set to `val`.
    pub fn status(self, val: TaskStatus) -> (r: Self)
        ensures
            r.name == self.name,
            r.deadline == self.deadline,
            r.importance == self.importance,
            r.status == Some(val),
            r.subtasks == self.subtasks,
    {
        TaskBuilder { status: Some(val), ..self }
    }

    /// The builder with `val` added as its last subtask.
    pub fn add_subtask(self, val: TaskBuilder) -> (r: Self)
        ensures
            r.name == self.name,
            r.deadline == self.deadline,
            r.importance == self.importance,
            r.status == self.status,
            r.subtasks@ == self.subtasks@.push(val),
    {
        let mut b = self;
        b.subtasks.push(val);
        b
    }
}

/// The name of a task built without one.
pub open spec fn default_task_name() -> Seq<char> {
    seq!['n', 'e', 'w', ' ', 't', 'a', 's', 'k', '.', '.', '.']
}

/// Down to depth `d`, `t` is what building `b` gives: the fields that `b`
/// sets, defaults for the others, no notes, and each subtask built from the
/// matching subtask of `b`.
pub closed spec fn built_within(t: Task, b: TaskBuilder, d: nat) -> bool
    decreases d,
{
    d == 0 || {
        &&& t.name@ == (if b.name is Some {
            b.name->0@
        } else {
            default_task_name()
        })
        &&& t.deadline == b.deadline
        &&& t.importance == (if b.importance is Some {
            b.importance->0
        } else {
            TaskImportance::Normal
        })
        &&& t.status == (if b.status is Some {
            b.status->0
        } else {
            TaskStatus::InProgress
        })
        &&& t.notes@.len() == 0
        &&& t.subtasks@.len() == b.subtasks@.len()
        &&& forall|i: int|
            0 <= i < b.subtasks@.len() ==> built_within(
                t.subtasks@[i],
                #[trigger] b.subtasks@[i],
                (d - 1) as nat,
            )
    }
}

/// `t` is what building `b` gives, at every depth.
pub closed spec fn built_from(t: Task, b: TaskBuilder) -> bool {
    forall|d: nat| #[trigger] built_within(t, b, d)
}

/// `after` keeps the identity, name, deadline and importance of `before`.
pub closed spec fn same_label(after: Task, before: Task) -> bool {
    &&& after.id == before.id
    &&& after.name@ == before.name@
    &&& after.deadline == before.deadline
    &&& after.importance == before.importance
}

/// `after` is `before` with only the importance changed.
pub closed spec fn same_label_but_importance(after: Task, before: Task) -> bool {
    &&& after.id == before.id
    &&& after.name@ == before.name@
    &&& after.deadline == before.deadline
    &&& after.status == before.status
    &&& after.subtasks == before.subtasks
    &&& after.notes == before.notes
}

/// `after` is `before` with only the deadline changed.
pub closed spec fn same_but_deadline(after: Task, before: Task) -> bool {
    &&& after.id == before.id
    &&& after.name@ == before.name@
    &&& after.importance == before.importance
    &&& after.status == before.status
    &&& after.subtasks == before.subtasks
    &&& after.notes == before.notes
}

/// `after` is `before` with only the notes changed.
pub closed spec fn same_but_notes(after: Task, before: Task) -> bool {
    &&& same_label(after, before)
    &&& after.status == before.status
    &&& after.subtasks == before.subtasks
}

/// The completion that the first `k` notes add up to: the estimates summed
/// in order, stopping at 100; notes without an estimate add nothing.
pub open spec fn notes_total(notes: Seq<ProgressNote>, k: int) -> int
    decreases k,
{
    if k <= 0 {
        0
    } else {
        let acc = notes_total(notes, k - 1);
        match notes[k - 1].completed {
            Some(c) => crate::progress::saturating_add_spec(acc, c.percent()),
            None => acc,
        }
    }
}

/// Down to depth `d`, the completion of `t`: 100 for a completed task;
/// otherwise the notes' total and the subtasks' completions averaged over
/// one more than the number of subtasks, rounded down.
spec fn completion_at(t: Task, d: nat) -> int
    decreases d, t.subtasks@.len() + 1,
{
    if d == 0 {
        0
    } else if t.status == TaskStatus::Completed {
        100
    } else {
        (notes_total(t.notes@, t.notes@.len() as int) + children_total(t, (d - 1) as nat, t.subtasks@.len() as int))
            / (t.subtasks@.len() + 1) as int
    }
}

/// The completions, at depth `e`, of the first `k` subtasks of `t`, summed.
spec fn children_total(t: Task, e: nat, k: int) -> int
    decreases e + 1, if k < 0 { 0 } else { k },
{
    if k <= 0 || k > t.subtasks@.len() {
        0
    } else {
        children_total(t, e, k - 1) + completion_at(t.subtasks@[k - 1], e)
    }
}

/// The sum of the first `k` items of `cs`.
pub open spec fn sum_first(cs: Seq<int>, k: int) -> int
    decreases k,
{
    if k <= 0 {
        0
    } else {
        sum_first(cs, k - 1) + cs[k - 1]
    }
}

/// `c` is the completion of `t`: what `completion_at` gives at every depth
/// from some depth on.
pub closed spec fn has_completion(t: Task, c: int) -> bool {
    exists|d0: nat| #[trigger] completion_from(t, c, d0)
}

/// From depth `d0` on, `completion_at` gives `c` for `t`.
spec fn completion_from(t: Task, c: int, d0: nat) -> bool {
    forall|d: nat| d >= d0 ==> #[trigger] completion_at(t, d) == c
}

proof fn lemma_sum_first_push(cs: Seq<int>, v: int, k: int)
    requires
        0 <= k <= cs.len(),
    ensures
        sum_first(cs.push(v), k) == sum_first(cs, k),
    decreases k,
{
    if k > 0 {
        lemma_sum_first_push(cs, v, k - 1);
    }
}

proof fn lemma_children_total(t: Task, e: nat, k: int, cs: Seq<int>, d0s: Seq<nat>)
    requires
        0 <= k <= t.subtasks@.len(),
        cs.len() == t.subtasks@.len(),
        d0s.len() == t.subtasks@.len(),
        forall|i: int| 0 <= i < k ==> #[trigger] d0s[i] <= e,
        forall|i: int, d: nat| 0 <= i < k && d >= d0s[i] ==> #[trigger] completion_at(t.subtasks@[i], d) == cs[i],
    ensures
        children_total(t, e, k) == sum_first(cs, k),
    decreases k,
{
    if k > 0 {
        lemma_children_total(t, e, k - 1, cs, d0s);
        assert(completion_at(t.subtasks@[k - 1], e) == cs[k - 1]);
    }
}

/// Down to depth `d`, every task of the tree rooted at `t` has status `s`.
pub closed spec fn all_within(t: Task, s: TaskStatus, d: nat) -> bool
    decreases d,
{
    d == 0 || (t.status == s && forall|i: int|
        0 <= i < t.subtasks@.len() ==> all_within(#[trigger] t.subtasks@[i], s, (d - 1) as nat))
}

/// Every task of the tree rooted at `t` has status `s`.
pub closed spec fn all_have_status(t: Task, s: TaskStatus) -> bool {
    forall|d: nat| #[trigger] all_within(t, s, d)
}

/// Down to depth `d`, the tree `after` is `before` changed task by task:
/// a task that `frozen` picks stays exactly as it was, subtasks included;
/// any other is changed as `step` says and keeps the number of its subtasks,
/// each of which is changed in the same way.
pub closed spec fn changed_within(
    after: Task,
    before: Task,
    frozen: spec_fn(Task) -> bool,
    step: spec_fn(Task, Task) -> bool,
    d: nat,
) -> bool
    decreases d,
{
    d == 0 || (if frozen(before) {
        after == before
    } else {
        &&& step(after, before)
        &&& after.subtasks@.len() == before.subtasks@.len()
        &&& forall|i: int|
            0 <= i < before.subtasks@.len() ==> changed_within(
                after.subtasks@[i],
                #[trigger] before.subtasks@[i],
                frozen,
                step,
                (d - 1) as nat,
            )
    })
}

/// The tree `after` is `before` changed task by task, as `changed_within`
/// says, at every depth.
pub closed spec fn changed(
    after: Task,
    before: Task,
    frozen: spec_fn(Task) -> bool,
    step: spec_fn(Task, Task) -> bool,
) -> bool {
    forall|d: nat| #[trigger] changed_within(after, before, frozen, step, d)
}

proof fn lemma_changed_frozen(
    t: Task,
    frozen: spec_fn(Task) -> bool,
    step: spec_fn(Task, Task) -> bool,
)
    requires
        frozen(t),
    ensures
        changed(t, t, frozen, step),
{
    assert forall|d: nat| #[trigger] changed_within(t, t, frozen, step, d) by {}
}

proof fn lemma_changed_step(
    after: Task,
    before: Task,
    frozen: spec_fn(Task) -> bool,
    step: spec_fn(Task, Task) -> bool,
)
    requires
        !frozen(before),
        step(after, before),
        after.subtasks@.len() == before.subtasks@.len(),
        forall|i: int|
            0 <= i < before.subtasks@.len() ==> #[trigger] changed(
                after.subtasks@[i],
                before.subtasks@[i],
                frozen,
                step,
            ),
    ensures
        changed(after, before, frozen, step),
{
    assert forall|d: nat| #[trigger] changed_within(after, before, frozen, step, d) by {
        if d > 0 {
            assert forall|i: int| 0 <= i < before.subtasks@.len() implies changed_within(
                after.subtasks@[i],
                #[trigger] before.subtasks@[i],
                frozen,
                step,
                (d - 1) as nat,
            ) by {
                assert(changed(after.subtasks@[i], before.subtasks@[i], frozen, step));
            }
            assert(changed_within(after, before, frozen, step, d));
        }
    }
}

/// Tasks that no change passes over.
pub open spec fn never_frozen() -> spec_fn(Task) -> bool {
    |t: Task| false
}

/// A task put back in progress with its notes dropped.
pub closed spec fn reset_step() -> spec_fn(Task, Task) -> bool {
    |after: Task, before: Task|
        same_label(after, before) && after.status == TaskStatus::InProgress && after.notes@.len()
            == 0
}

proof fn lemma_all_step(t: Task, s: TaskStatus)
    requires
        t.status == s,
        forall|i: int| 0 <= i < t.subtasks@.len() ==> all_have_status(#[trigger] t.subtasks@[i], s),
    ensures
        all_have_status(t, s),
{
    assert forall|d: nat| #[trigger] all_within(t, s, d) by {
        if d > 0 {
            assert forall|i: int| 0 <= i < t.subtasks@.len() implies all_within(
                #[trigger] t.subtasks@[i],
                s,
                (d - 1) as nat,
            ) by {
                assert(all_have_status(t.subtasks@[i], s));
            }
        }
    }
}

proof fn lemma_all_fails_at_top(t: Task, s: TaskStatus)
    requires
        t.status != s,
    ensures
        !all_have_status(t, s),
{
    assert(!all_within(t, s, 1));
}

proof fn lemma_all_fails_below(t: Task, s: TaskStatus, i: int)
    requires
        0 <= i < t.subtasks@.len(),
        !all_have_status(t.subtasks@[i], s),
    ensures
        !all_have_status(t, s),
{
    let d = choose|d: nat| !#[trigger] all_within(t.subtasks@[i], s, d);
    assert(!all_within(t, s, d + 1));
}

/// A task put on hold, keeping its notes.
pub closed spec fn hold_step() -> spec_fn(Task, Task) -> bool {
    |after: Task, before: Task|
        same_label(after, before) && after.status == TaskStatus::OnHold && after.notes
            == before.notes
}

/// A task marked completed, keeping its notes.
pub closed spec fn complete_step() -> spec_fn(Task, Task) -> bool {
    |after: Task, before: Task|
        same_label(after, before) && after.status == TaskStatus::Completed && after.notes
            == before.notes
}

/// Completed tasks, which completing passes over.
pub closed spec fn complete_frozen() -> spec_fn(Task) -> bool {
    |t: Task| t.status == TaskStatus::Completed
}

/// A task taken back in progress, keeping its notes.
pub closed spec fn resume_step() -> spec_fn(Task, Task) -> bool {
    |after: Task, before: Task|
        same_label(after, before) && after.status == TaskStatus::InProgress && after.notes
            == before.notes
}

/// Tasks that are not on hold, which resuming passes over.
pub closed spec fn resume_frozen() -> spec_fn(Task) -> bool {
    |t: Task| t.status != TaskStatus::OnHold
}

/// A task taken back in progress whose notes keep their text and time but
/// lose their completion estimates.
pub closed spec fn restart_step() -> spec_fn(Task, Task) -> bool {
    |after: Task, before: Task|
        {
            &&& same_label(after, before)
            &&& after.status == TaskStatus::InProgress
            &&& after.notes@.len() == before.notes@.len()
            &&& forall|k: int|
                0 <= k < before.notes@.len() ==> {
                    &&& (#[trigger] after.notes@[k]).completed is None
                    &&& after.notes@[k].note == before.notes@[k].note
                    &&& after.notes@[k].timestamp_ms == before.notes@[k].timestamp_ms
                }
        }
}

impl Default for Task {
    /// A task built from an empty builder: named `new task...`, normal
    /// importance, in progress, with no deadline, notes or subtasks.
    fn default() -> (r: Self)
        ensures
            r.spec_name() == default_task_name(),
            r.spec_deadline() is None,
            r.spec_importance() == TaskImportance::Normal,
            r.spec_status() == TaskStatus::InProgress,
            r.spec_notes().len() == 0,
            r.spec_subtasks().len() == 0,
    {
        let b = TaskBuilder::new();
        let ghost gb = b;
        let r = Task::new(b);
        proof {
            assert(built_within(r, gb, 1));
        }
        r
    }
}

/// Relies on `format!`: the text `Task `, the name, a space, then `problem`.
#[verifier::external_body]
fn status_message(name: &String, problem: &str) -> (r: String)
    ensures
        r@ == seq!['T', 'a', 's', 'k', ' '] + name@ + seq![' '] + problem@,
{
    format!("Task {} {}", name, problem)
}

/// Relies on `format!`: the text `Invalid status: ` followed by `msg`.
#[verifier::external_body]
fn invalid_status_text(msg: &String) -> (r: String)
    ensures
        r@ == seq!['I', 'n', 'v', 'a', 'l', 'i', 'd', ' ', 's', 't', 'a', 't', 'u', 's', ':', ' ']
            + msg@,
{
    format!("Invalid status: {}", msg)
}

/// What can go wrong when a task changes status.
#[derive(Debug)]
pub enum TaskError {
    /// The task's status does not allow the change; the text says why.
    TaskStatusError(String),
}

impl TaskError {
    /// The error as text, as in `Invalid status: Task x is already complete!`.
    pub fn to_string(&self) -> (r: String)
        ensures
            match self {
                TaskError::TaskStatusError(msg) => r@ == seq![
                    'I',
                    'n',
                    'v',
                    'a',
                    'l',
                    'i',
                    'd',
                    ' ',
                    's',
                    't',
                    'a',
                    't',
                    'u',
                    's',
                    ':',
                    ' ',
                ] + msg@,
            },
    {
        match self {
            TaskError::TaskStatusError(msg) => invalid_status_text(msg),
        }
    }
}

impl Task {
    /// The task's identifier.
    pub closed spec fn spec_id(&self) -> uuid::Uuid {
        self.id
    }

    /// The task's status.
    pub closed spec fn spec_status(&self) -> TaskStatus {
        self.status
    }

    /// The task's name.
    pub closed spec fn spec_name(&self) -> Seq<char> {
        self.name@
    }

    /// The task's deadline, in milliseconds since the Unix epoch.
    pub closed spec fn spec_deadline(&self) -> Option<i64> {
        self.deadline
    }

    /// The task's importance.
    pub closed spec fn spec_importance(&self) -> TaskImportance {
        self.importance
    }

    /// The task's subtasks, in order.
    pub closed spec fn spec_subtasks(&self) -> Seq<Task> {
        self.subtasks@
    }

    /// The task's notes, in the order they were added.
    pub closed spec fn spec_notes(&self) -> Seq<ProgressNote> {
        self.notes@
    }

    /// The task that `builder` describes, with a fresh identifier and no
    /// notes; each subtask is built from the matching subtask builder.
    pub fn new(builder: TaskBuilder) -> (r: Self)
        ensures
            built_from(r, builder),
        decreases builder,
    {
        let TaskBuilder { name, deadline, importance, status, subtasks } = builder;
        let ghost subs = subtasks@;
        let n = subtasks.len();
        let mut rest = subtasks;
        let mut built: Vec<Task> = Vec::new();
        let mut i: usize = 0;
        while i < n
            invariant
                n == subs.len(),
                subs == builder.subtasks@,
                i <= n,
                rest@ == subs.subrange(i as int, n as int),
                built@.len() == i,
                forall|j: int| 0 <= j < i ==> built_from(#[trigger] built@[j], subs[j]),
            decreases n - i,
        {
            let b = rest.remove(0);
            proof {
                assert(b == subs[i as int]);
                assert(decreases_to!(builder => builder.subtasks));
                assert(decreases_to!(builder.subtasks => builder.subtasks@));
                assert(decreases_to!(builder.subtasks@ => builder.subtasks@[i as int]));
            }
            let t = Task::new(b);
            built.push(t);
            proof {
                assert(rest@ =~= subs.subrange(i as int + 1, n as int));
            }
            i = i + 1;
        }
        let name = match name {
            Some(v) => v,
            None => "new task...".to_owned(),
        };
        let importance = match importance {
            Some(v) => v,
            None => TaskImportance::Normal,
        };
        let status = match status {
            Some(v) => v,
            None => TaskStatus::InProgress,
        };
        let r = Task { id: fresh_id(), name, deadline, importance, status, subtasks: built, notes: Vec::new() };
        proof {
            reveal_strlit("new task...");
            assert forall|d: nat| #[trigger] built_within(r, builder, d) by {
                if d > 0 {
                    assert forall|j: int| 0 <= j < n implies built_within(
                        r.subtasks@[j],
                        #[trigger] builder.subtasks@[j],
                        (d - 1) as nat,
                    ) by {
                        assert(built_from(r.subtasks@[j], subs[j]));
                    }
                    assert(r.name@ == (if builder.name is Some { builder.name->0@ } else { default_task_name() }));
                    assert(r.importance == (if builder.importance is Some { builder.importance->0 } else { TaskImportance::Normal }));
                    assert(r.subtasks@.len() == builder.subtasks@.len());
                }
            }
        }
        r
    }

    /// The task's identifier.
    pub fn id(&self) -> (r: uuid::Uuid)
        ensures
            r == self.spec_id(),
    {
        self.id
    }

    /// The task's name.
    pub fn name(&self) -> (r: &str)
        ensures
            r@ == self.spec_name(),
    {
        self.name.as_str()
    }

    /// The task's deadline, in milliseconds since the Unix epoch.
    pub fn deadline(&self) -> (r: Option<i64>)
        ensures
            r == self.spec_deadline(),
    {
        self.deadline
    }

    /// The task's importance.
    pub fn importance(&self) -> (r: TaskImportance)
        ensures
            r == self.spec_importance(),
    {
        self.importance
    }

    /// The task's status.
    pub fn status(&self) -> (r: TaskStatus)
        ensures
            r == self.spec_status(),
    {
        self.status
    }

    /// Sets the importance to `new`; returns the previous importance if it
    /// differed, `None` if it was already `new`.
    pub fn change_importance(&mut self, new: TaskImportance) -> (r: Option<TaskImportance>)
        ensures
            final(self).spec_importance() == new,
            r == (if old(self).spec_importance() != new {
                Some(old(self).spec_importance())
            } else {
                None::<TaskImportance>
            }),
            same_label_but_importance(*final(self), *old(self)),
    {
        if self.importance != new {
            let prev = self.importance;
            self.importance = new;
            Some(prev)
        } else {
            None
        }
    }

    /// Sets the deadline to `deadline` and returns the previous one.
    pub fn change_deadline(&mut self, deadline: i64) -> (r: Option<i64>)
        ensures
            final(self).spec_deadline() == Some(deadline),
            r == old(self).spec_deadline(),
            same_but_deadline(*final(self), *old(self)),
    {
        let prev = self.deadline;
        self.deadline = Some(deadline);
        prev
    }

    /// Moves a set deadline `duration_ms` milliseconds later (earlier when
    /// negative) and returns the previous one; without a deadline nothing
    /// changes and the result is `None`.
    pub fn extend_deadline(&mut self, duration_ms: i64) -> (r: Option<i64>)
        requires
            old(self).spec_deadline() is Some ==> i64::MIN <= old(self).spec_deadline()->0
                + duration_ms <= i64::MAX,
        ensures
            r == old(self).spec_deadline(),
            final(self).spec_deadline() == (match old(self).spec_deadline() {
                Some(d) => Some((d + duration_ms) as i64),
                None => None,
            }),
            same_but_deadline(*final(self), *old(self)),
    {
        match self.deadline {
            Some(d) => {
                self.deadline = Some(d + duration_ms);
                Some(d)
            },
            None => None,
        }
    }

    /// Clears the deadline and returns the previous one.
    pub fn remove_deadline(&mut self) -> (r: Option<i64>)
        ensures
            final(self).spec_deadline() is None,
            r == old(self).spec_deadline(),
            same_but_deadline(*final(self), *old(self)),
    {
        let prev = self.deadline;
        self.deadline = None;
        prev
    }

    /// Adds a note stamped with the current time, with `perc` as its
    /// completion estimate when given (between 0 and 100).
    pub fn add_note(&mut self, note: String, perc: Option<i32>)
        requires
            perc is Some ==> 0 <= perc->0 <= 100,
        ensures
            final(self).spec_notes().len() == old(self).spec_notes().len() + 1,
            final(self).spec_notes().drop_last() == old(self).spec_notes(),
            final(self).spec_notes().last().note@ == note@,
            match perc {
                Some(p) => final(self).spec_notes().last().completed is Some
                    && final(self).spec_notes().last().completed->0.percent() == p as int,
                None => final(self).spec_notes().last().completed is None,
            },
            same_but_notes(*final(self), *old(self)),
    {
        let n = match perc {
            Some(p) => ProgressNote::with_completion(note, p),
            None => ProgressNote::new(note),
        };
        self.notes.push(n);
        proof {
            assert(self.notes@.drop_last() =~= old(self).notes@);
        }
    }

    /// The completion that the notes alone add up to: their estimates summed
    /// in order, stopping at 100.
    fn completion_notes_only(&self) -> (r: Completion)
        ensures
            r.percent() == notes_total(self.notes@, self.notes@.len() as int),
    {
        let mut acc = Completion::zero();
        let m = self.notes.len();
        let mut k: usize = 0;
        while k < m
            invariant
                m == self.notes@.len(),
                k <= m,
                acc.percent() == notes_total(self.notes@, k as int),
            decreases m - k,
        {
            match self.notes[k].completed {
                Some(p) => {
                    acc = acc + p;
                },
                None => {},
            }
            k = k + 1;
        }
        acc
    }

    /// How much of the task is done: 100 percent for a completed task;
    /// otherwise the notes' total and the completions of the subtasks
    /// averaged over one more than the number of subtasks, rounded down.
    pub fn completion(&self) -> (r: Completion)
        ensures
            has_completion(*self, r.percent()),
        decreases self,
    {
        if self.status == TaskStatus::Completed {
            let r = Completion::full();
            proof {
                assert(completion_from(*self, 100, 1));
            }
            return r;
        }
        let n = self.subtasks.len();
        let notes = self.completion_notes_only();
        let mut sum: u128 = notes.val() as u128;
        let ghost mut cs: Seq<int> = Seq::empty();
        let ghost mut d0s: Seq<nat> = Seq::empty();
        let ghost mut dmax: nat = 0;
        let mut i: usize = 0;
        while i < n
            invariant
                n == self.subtasks@.len(),
                i <= n,
                cs.len() == i,
                d0s.len() == i,
                sum == notes.percent() + sum_first(cs, i as int),
                0 <= notes.percent() <= 100,
                sum <= 100 * (i + 1),
                forall|j: int| 0 <= j < i ==> #[trigger] d0s[j] <= dmax,
                forall|j: int, d: nat|
                    0 <= j < i && d >= d0s[j] ==> #[trigger] completion_at(self.subtasks@[j], d) == cs[j],
            decreases n - i,
        {
            let c = self.subtasks[i].completion();
            let v = c.val();
            proof {
                let d0 = choose|d0: nat| #[trigger] completion_from(self.subtasks@[i as int], v as int, d0);
                assert(sum_first(cs.push(v as int), i as int) == sum_first(cs, i as int)) by {
                    lemma_sum_first_push(cs, v as int, i as int);
                }
                cs = cs.push(v as int);
                d0s = d0s.push(d0);
                if d0 > dmax {
                    dmax = d0;
                }
            }
            sum = sum + v as u128;
            i = i + 1;
        }
        let count: u128 = n as u128 + 1;
        let avg: u128 = sum / count;
        assert(avg <= 100) by (nonlinear_arith)
            requires
                sum <= 100 * count,
                count > 0,
                avg == sum / count,
        ;
        let r = Completion::new(avg as i32);
        proof {
            assert forall|d: nat| d >= dmax + 1 implies #[trigger] completion_at(*self, d) == avg by {
                lemma_children_total(*self, (d - 1) as nat, n as int, cs, d0s);
            }
            assert(completion_from(*self, avg as int, dmax + 1));
        }
        r
    }

    /// The number of subtasks plus one, and the completion of each part: the
    /// notes first, under the label `notes_only`, then each subtask in order
    /// under its name.
    pub fn completion_breakdown(&self) -> (r: (usize, Vec<(&str, Completion)>))
        requires
            self.spec_subtasks().len() < usize::MAX,
        ensures
            r.0 == self.spec_subtasks().len() + 1,
            r.1@.len() == r.0,
            r.1@[0].0@ == seq!['n', 'o', 't', 'e', 's', '_', 'o', 'n', 'l', 'y'],
            r.1@[0].1.percent() == notes_total(self.spec_notes(), self.spec_notes().len() as int),
            forall|i: int|
                0 <= i < self.spec_subtasks().len() ==> {
                    &&& (#[trigger] r.1@[i + 1]).0@ == self.spec_subtasks()[i].spec_name()
                    &&& has_completion(self.spec_subtasks()[i], r.1@[i + 1].1.percent())
                },
    {
        let n = self.subtasks.len();
        let mut parts: Vec<(&str, Completion)> = Vec::new();
        proof {
            reveal_strlit("notes_only");
        }
        parts.push(("notes_only", self.completion_notes_only()));
        let mut i: usize = 0;
        while i < n
            invariant
                n == self.subtasks@.len(),
                i <= n,
                parts@.len() == i + 1,
                parts@[0].0@ == seq!['n', 'o', 't', 'e', 's', '_', 'o', 'n', 'l', 'y'],
                parts@[0].1.percent() == notes_total(self.notes@, self.notes@.len() as int),
                forall|j: int|
                    0 <= j < i ==> {
                        &&& (#[trigger] parts@[j + 1]).0@ == self.subtasks@[j].spec_name()
                        &&& has_completion(self.subtasks@[j], parts@[j + 1].1.percent())
                    },
            decreases n - i,
        {
            let sub = &self.subtasks[i];
            parts.push((sub.name(), sub.completion()));
            i = i + 1;
        }
        (n + 1, parts)
    }

    /// An iterator over the subtasks, in order.
    pub fn subtasks_iter(&self) -> (r: std::slice::Iter<'_, Task>) {
        self.subtasks.as_slice().iter()
    }

    /// Puts every task of the tree back in progress and drops every note.
    pub fn reset(&mut self)
        ensures
            changed(*final(self), *old(self), never_frozen(), reset_step()),
        decreases *old(self),
    {
        let n = self.subtasks.len();
        let mut i: usize = 0;
        while i < n
            invariant
                n == self.subtasks@.len(),
                n == old(self).subtasks@.len(),
                i <= n,
                same_label(*self, *old(self)),
                forall|j: int| 0 <= j < i ==> #[trigger] changed(self.subtasks@[j], old(self).subtasks@[j], never_frozen(), reset_step()),
                forall|j: int| i <= j < n ==> self.subtasks@[j] == old(self).subtasks@[j],
            decreases n - i,
        {
            self.subtasks[i].reset();
            i = i + 1;
        }
        self.notes.clear();
        self.status = TaskStatus::InProgress;
        proof {
            lemma_changed_step(*self, *old(self), never_frozen(), reset_step());
        }
    }

    /// Whether every task of the tree has status `s`.
    fn all_status(&self, s: TaskStatus) -> (r: bool)
        ensures
            r == all_have_status(*self, s),
        decreases self,
    {
        if self.status != s {
            proof {
                lemma_all_fails_at_top(*self, s);
            }
            return false;
        }
        let n = self.subtasks.len();
        let mut i: usize = 0;
        while i < n
            invariant
                n == self.subtasks@.len(),
                i <= n,
                self.status == s,
                forall|j: int| 0 <= j < i ==> all_have_status(#[trigger] self.subtasks@[j], s),
            decreases n - i,
        {
            if !self.subtasks[i].all_status(s) {
                proof {
                    lemma_all_fails_below(*self, s, i as int);
                }
                return false;
            }
            i = i + 1;
        }
        proof {
            lemma_all_step(*self, s);
        }
        true
    }

    /// Puts every task of the tree on hold.
    fn hold_tree(&mut self)
        ensures
            changed(*final(self), *old(self), never_frozen(), hold_step()),
        decreases *old(self),
    {
        let n = self.subtasks.len();
        let mut i: usize = 0;
        while i < n
            invariant
                n == self.subtasks@.len(),
                n == old(self).subtasks@.len(),
                i <= n,
                same_label(*self, *old(self)),
                self.notes == old(self).notes,
                forall|j: int| 0 <= j < i ==> #[trigger] changed(self.subtasks@[j], old(self).subtasks@[j], never_frozen(), hold_step()),
                forall|j: int| i <= j < n ==> self.subtasks@[j] == old(self).subtasks@[j],
            decreases n - i,
        {
            self.subtasks[i].hold_tree();
            i = i + 1;
        }
        self.status = TaskStatus::OnHold;
        proof {
            lemma_changed_step(*self, *old(self), never_frozen(), hold_step());
        }
    }

    /// Puts a task that is in progress on hold, together with all of its
    /// subtasks, which must all be in progress too. Otherwise nothing changes
    /// and the error says that the task is not in progress.
    pub fn pause(&mut self) -> (r: Result<(), TaskError>)
        ensures
            r is Ok <==> all_have_status(*old(self), TaskStatus::InProgress),
            r is Ok ==> changed(*final(self), *old(self), never_frozen(), hold_step()),
            r is Err ==> *final(self) == *old(self),
    {
        if self.all_status(TaskStatus::InProgress) {
            self.hold_tree();
            Ok(())
        } else {
            Err(TaskError::TaskStatusError(status_message(&self.name, "is not currently in progress!")))
        }
    }

    /// Marks the task completed unless it is, and every subtask that is not
    /// completed, recursively; completed subtasks stay as they are.
    fn complete_tree(&mut self)
        ensures
            changed(*final(self), *old(self), complete_frozen(), complete_step()),
        decreases *old(self),
    {
        if self.status == TaskStatus::Completed {
            proof {
                lemma_changed_frozen(*self, complete_frozen(), complete_step());
            }
            return;
        }
        let n = self.subtasks.len();
        let mut i: usize = 0;
        while i < n
            invariant
                n == self.subtasks@.len(),
                n == old(self).subtasks@.len(),
                i <= n,
                same_label(*self, *old(self)),
                self.status == old(self).status,
                self.notes == old(self).notes,
                forall|j: int| 0 <= j < i ==> #[trigger] changed(self.subtasks@[j], old(self).subtasks@[j], complete_frozen(), complete_step()),
                forall|j: int| i <= j < n ==> self.subtasks@[j] == old(self).subtasks@[j],
            decreases n - i,
        {
            self.subtasks[i].complete_tree();
            i = i + 1;
        }
        self.status = TaskStatus::Completed;
        proof {
            lemma_changed_step(*self, *old(self), complete_frozen(), complete_step());
        }
    }

    /// Marks a task that is not completed as completed, together with every
    /// subtask that is not completed yet. A completed task is left as it is,
    /// and the error says that it is already complete.
    pub fn complete(&mut self) -> (r: Result<(), TaskError>)
        ensures
            r is Ok <==> old(self).spec_status() != TaskStatus::Completed,
            r is Ok ==> changed(*final(self), *old(self), complete_frozen(), complete_step()),
            r is Err ==> *final(self) == *old(self),
    {
        if self.status == TaskStatus::Completed {
            Err(TaskError::TaskStatusError(status_message(&self.name, "is already complete!")))
        } else {
            self.complete_tree();
            Ok(())
        }
    }

    /// Takes a task on hold back into progress, and every subtask on hold,
    /// recursively; other tasks stay as they are.
    fn resume_tree(&mut self)
        ensures
            changed(*final(self), *old(self), resume_frozen(), resume_step()),
        decreases *old(self),
    {
        if self.status != TaskStatus::OnHold {
            proof {
                lemma_changed_frozen(*self, resume_frozen(), resume_step());
            }
            return;
        }
        let n = self.subtasks.len();
        let mut i: usize = 0;
        while i < n
            invariant
                n == self.subtasks@.len(),
                n == old(self).subtasks@.len(),
                i <= n,
                same_label(*self, *old(self)),
                self.notes == old(self).notes,
                forall|j: int| 0 <= j < i ==> #[trigger] changed(self.subtasks@[j], old(self).subtasks@[j], resume_frozen(), resume_step()),
                forall|j: int| i <= j < n ==> self.subtasks@[j] == old(self).subtasks@[j],
            decreases n - i,
        {
            self.subtasks[i].resume_tree();
            i = i + 1;
        }
        self.status = TaskStatus::InProgress;
        proof {
            lemma_changed_step(*self, *old(self), resume_frozen(), resume_step());
        }
    }

    /// Takes a task on hold back into progress, with every subtask on hold;
    /// a task in progress stays as it is. A completed task cannot be resumed:
    /// it is left as it is and the error says that it is already completed.
    pub fn resume(&mut self) -> (r: Result<(), TaskError>)
        ensures
            r is Ok <==> old(self).spec_status() != TaskStatus::Completed,
            r is Ok ==> changed(*final(self), *old(self), resume_frozen(), resume_step()),
            r is Err ==> *final(self) == *old(self),
    {
        if self.status == TaskStatus::Completed {
            Err(TaskError::TaskStatusError(status_message(&self.name, "is already completed!")))
        } else {
            self.resume_tree();
            Ok(())
        }
    }

    /// Takes every task of the tree back into progress and drops the
    /// completion estimates of its notes.
    fn restart_tree(&mut self)
        ensures
            changed(*final(self), *old(self), never_frozen(), restart_step()),
        decreases *old(self),
    {
        let n = self.subtasks.len();
        let mut i: usize = 0;
        while i < n
            invariant
                n == self.subtasks@.len(),
                n == old(self).subtasks@.len(),
                i <= n,
                same_label(*self, *old(self)),
                self.notes == old(self).notes,
                forall|j: int| 0 <= j < i ==> #[trigger] changed(self.subtasks@[j], old(self).subtasks@[j], never_frozen(), restart_step()),
                forall|j: int| i <= j < n ==> self.subtasks@[j] == old(self).subtasks@[j],
            decreases n - i,
        {
            self.subtasks[i].restart_tree();
            i = i + 1;
        }
        let m = self.notes.len();
        let mut k: usize = 0;
        while k < m
            invariant
                m == self.notes@.len(),
                m == old(self).notes@.len(),
                k <= m,
                same_label(*self, *old(self)),
                n == self.subtasks@.len(),
                forall|j: int| 0 <= j < n ==> #[trigger] changed(self.subtasks@[j], old(self).subtasks@[j], never_frozen(), restart_step()),
                forall|j: int| 0 <= j < k ==> {
                    &&& (#[trigger] self.notes@[j]).completed is None
                    &&& self.notes@[j].note == old(self).notes@[j].note
                    &&& self.notes@[j].timestamp_ms == old(self).notes@[j].timestamp_ms
                },
                forall|j: int| k <= j < m ==> self.notes@[j] == old(self).notes@[j],
            decreases m - k,
        {
            self.notes[k].reset_completion();
            k = k + 1;
        }
        self.status = TaskStatus::InProgress;
        proof {
            lemma_changed_step(*self, *old(self), never_frozen(), restart_step());
        }
    }

    /// Takes a completed task back into progress, with all of its subtasks,
    /// which must all be completed too, and drops the completion estimates of
    /// all their notes. Otherwise nothing changes and the error says that the
    /// task has not been completed.
    pub fn restart(&mut self) -> (r: Result<(), TaskError>)
        ensures
            r is Ok <==> all_have_status(*old(self), TaskStatus::Completed),
            r is Ok ==> changed(*final(self), *old(self), never_frozen(), restart_step()),
            r is Err ==> *final(self) == *old(self),
    {
        if self.all_status(TaskStatus::Completed) {
            self.restart_tree();
            Ok(())
        } else {
            Err(TaskError::TaskStatusError(status_message(&self.name, "has not been completed yet!")))
        }
    }
}

} // verus!
