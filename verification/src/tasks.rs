//! Durable tool execution: a tool call made as a task runs in the
//! background, and its state and result are read with `tasks/get`,
//! `tasks/list` and `tasks/result`, and stopped with `tasks/cancel`.
use vstd::prelude::*;
use crate::mcp::{RpcError, ERR_INVALID_PARAMS};
use crate::text::{decimal, decimal_string, lemma_decimal_injective, str_eq};

verus! {

/// The state of a task.
#[derive(Clone, Copy, PartialEq, Eq, Structural, Debug)]
pub enum TaskStatus {
    /// The tool is still running.
    Working,
    /// The tool finished.
    Completed,
    /// The tool finished with an error.
    Failed,
    /// The task was cancelled before the tool finished.
    Cancelled,
}

/// The protocol name of a status.
pub open spec fn status_name(s: TaskStatus) -> Seq<char> {
    match s {
        TaskStatus::Working => "working"@,
        TaskStatus::Completed => "completed"@,
        TaskStatus::Failed => "failed"@,
        TaskStatus::Cancelled => "cancelled"@,
    }
}

impl TaskStatus {
    /// The protocol name of this status.
    pub fn as_str(&self) -> (r: &'static str)
        ensures
            r@ == status_name(*self),
    {
        match self {
            TaskStatus::Working => "working",
            TaskStatus::Completed => "completed",
            TaskStatus::Failed => "failed",
            TaskStatus::Cancelled => "cancelled",
        }
    }
}

/// One task: its number, its id (`task-` and the number), its state, the
/// time to live that the client asked for, when it was created, and the
/// tool's result once it finished.
pub struct TaskEntry<T> {
    pub number: u64,
    pub id: String,
    pub status: TaskStatus,
    pub ttl_ms: Option<u64>,
    pub created_at_ms: u64,
    pub updated_at_ms: u64,
    pub result: Option<T>,
}

/// What `tasks/get`, `tasks/list` and `tasks/cancel` report of a task.
pub struct TaskInfo {
    pub task_id: String,
    pub status: TaskStatus,
    pub ttl_ms: Option<u64>,
    pub created_at_ms: u64,
    pub updated_at_ms: u64,
}

/// The id of task number `n`.
pub open spec fn task_id_of(n: nat) -> Seq<char> {
    "task-"@ + decimal(n)
}

/// `info` reports `e`.
pub open spec fn reports<T>(info: TaskInfo, e: TaskEntry<T>) -> bool {
    &&& info.task_id@ == e.id@
    &&& info.status == e.status
    &&& info.ttl_ms == e.ttl_ms
    &&& info.created_at_ms == e.created_at_ms
    &&& info.updated_at_ms == e.updated_at_ms
}

/// The error for an id that names no task.
pub open spec fn not_found(r: RpcError, id: Seq<char>) -> bool {
    r.code == ERR_INVALID_PARAMS && r.message@ == "Task not found: "@ + id
}

/// A task has outlived its time to live at `now_ms`.
pub open spec fn expired<T>(e: TaskEntry<T>, now_ms: u64) -> bool {
    match e.ttl_ms {
        Some(t) => e.created_at_ms + t <= now_ms,
        None => false,
    }
}

/// The tasks that are still alive at `now_ms`.
pub open spec fn alive<T>(now_ms: u64) -> spec_fn(TaskEntry<T>) -> bool {
    |e: TaskEntry<T>| !expired(e, now_ms)
}

/// The tasks of a server, in the order they were created.
pub struct TaskStore<T> {
    entries: Vec<TaskEntry<T>>,
    next: u64,
}

impl<T> View for TaskStore<T> {
    type V = Seq<TaskEntry<T>>;

    closed spec fn view(&self) -> Seq<TaskEntry<T>> {
        self.entries@
    }
}

/// Well-formedness of a sequence of tasks whose numbers stand below `next`.
pub open spec fn tasks_wf<T>(s: Seq<TaskEntry<T>>, next: nat) -> bool {
    &&& forall|i: int| 0 <= i < s.len() ==> #[trigger] s[i].id@ == task_id_of(s[i].number as nat)
    &&& forall|i: int| 0 <= i < s.len() ==> #[trigger] s[i].number < next
    &&& forall|i: int, j: int| 0 <= i < j < s.len() ==> s[i].number < s[j].number
    &&& forall|i: int|
        0 <= i < s.len() ==> (#[trigger] s[i].result is Some <==> (s[i].status == TaskStatus::Completed
            || s[i].status == TaskStatus::Failed))
}

/// Different numbers give different ids.
pub proof fn lemma_task_ids_distinct(a: nat, b: nat)
    requires
        a != b,
    ensures
        task_id_of(a) != task_id_of(b),
{
    if task_id_of(a) == task_id_of(b) {
        reveal_strlit("task-");
        assert("task-"@.len() == 5);
        assert(task_id_of(a).skip(5) =~= decimal(a));
        assert(task_id_of(b).skip(5) =~= decimal(b));
        lemma_decimal_injective(a, b);
    }
}

impl<T> TaskStore<T> {
    /// The number the next task gets.
    pub closed spec fn next_number(&self) -> nat {
        self.next as nat
    }

    /// Every task's id is `task-` and its number, numbers grow in order of
    /// creation and stand below the next number, and a task holds a result
    /// exactly when it completed or failed.
    pub open spec fn wf(&self) -> bool {
        tasks_wf(self@, self.next_number())
    }

    /// No tasks.
    pub fn new() -> (r: Self)
        ensures
            r.wf(),
            r@.len() == 0,
            r.next_number() == 1,
    {
        TaskStore { entries: Vec::new(), next: 1 }
    }

    /// Whether another task can be opened: the next number is below
    /// `u64::MAX`.
    pub fn can_create(&self) -> (r: bool)
        ensures
            r == (self.next_number() < u64::MAX),
    {
        self.next < u64::MAX
    }

    /// Two tasks of a well-formed store never share an id.
    pub proof fn lemma_ids_unique(&self)
        requires
            self.wf(),
        ensures
            forall|i: int, j: int|
                0 <= i < self@.len() && 0 <= j < self@.len() && i != j ==> self@[i].id@ != self@[j].id@,
    {
        assert forall|i: int, j: int|
            0 <= i < self@.len() && 0 <= j < self@.len() && i != j implies self@[i].id@
            != self@[j].id@ by {
            assert(self@[i].number != self@[j].number);
            assert(self@[i].id@ == task_id_of(self@[i].number as nat));
            assert(self@[j].id@ == task_id_of(self@[j].number as nat));
            lemma_task_ids_distinct(self@[i].number as nat, self@[j].number as nat);
        }
    }

    fn position(&self, id: &str) -> (r: Option<usize>)
        ensures
            match r {
                Some(i) => i < self@.len() && self@[i as int].id@ == id@,
                None => forall|i: int| 0 <= i < self@.len() ==> self@[i].id@ != id@,
            },
    {
        let mut i: usize = 0;
        while i < self.entries.len()
            invariant
                i <= self@.len(),
                forall|k: int| 0 <= k < i ==> self@[k].id@ != id@,
            decreases self@.len() - i,
        {
            if str_eq(self.entries[i].id.as_str(), id) {
                return Some(i);
            }
            i = i + 1;
        }
        None
    }

    fn info_at(&self, i: usize) -> (r: TaskInfo)
        requires
            i < self@.len(),
        ensures
            reports(r, self@[i as int]),
    {
        let e = &self.entries[i];
        TaskInfo {
            task_id: e.id.clone(),
            status: e.status,
            ttl_ms: e.ttl_ms,
            created_at_ms: e.created_at_ms,
            updated_at_ms: e.updated_at_ms,
        }
    }

    /// Opens a task for a tool call made at `now_ms`: it is working, has no
    /// result, and its id is `task-` and the next number, which no task of
    /// the store has.
    pub fn create(&mut self, ttl_ms: Option<u64>, now_ms: u64) -> (id: String)
        requires
            old(self).wf(),
            old(self).next_number() < u64::MAX,
        ensures
            final(self).wf(),
            id@ == task_id_of(old(self).next_number()),
            final(self).next_number() == old(self).next_number() + 1,
            final(self)@.len() == old(self)@.len() + 1,
            final(self)@.take(old(self)@.len() as int) == old(self)@,
            final(self)@.last().number == old(self).next_number(),
            final(self)@.last().id@ == id@,
            final(self)@.last().status == TaskStatus::Working,
            final(self)@.last().ttl_ms == ttl_ms,
            final(self)@.last().created_at_ms == now_ms,
            final(self)@.last().updated_at_ms == now_ms,
            final(self)@.last().result is None,
            forall|i: int| 0 <= i < old(self)@.len() ==> old(self)@[i].id@ != id@,
    {
        let n = self.next;
        let digits = decimal_string(n);
        let mut id = String::from_str("task-");
        id.append(digits.as_str());
        proof {
            assert forall|i: int| 0 <= i < old(self)@.len() implies old(self)@[i].id@ != id@ by {
                assert(old(self)@[i].id@ == task_id_of(old(self)@[i].number as nat));
                lemma_task_ids_distinct(old(self)@[i].number as nat, n as nat);
            }
        }
        let entry = TaskEntry {
            number: n,
            id: id.clone(),
            status: TaskStatus::Working,
            ttl_ms,
            created_at_ms: now_ms,
            updated_at_ms: now_ms,
            result: None,
        };
        self.entries.push(entry);
        self.next = n + 1;
        proof {
            assert(self@.take(old(self)@.len() as int) =~= old(self)@);
            assert forall|i: int| 0 <= i < self@.len() implies #[trigger] self@[i].id@ == task_id_of(
                self@[i].number as nat,
            ) by {
                if i < old(self)@.len() {
                    assert(self@[i] == old(self)@[i]);
                }
            }
            assert forall|i: int| 0 <= i < self@.len() implies #[trigger] self@[i].number < self.next by {
                if i < old(self)@.len() {
                    assert(self@[i] == old(self)@[i]);
                }
            }
            assert forall|i: int, j: int| 0 <= i < j < self@.len() implies self@[i].number
                < self@[j].number by {
                assert(self@[i] == old(self)@[i]);
                if j < old(self)@.len() {
                    assert(self@[j] == old(self)@[j]);
                }
            }
            assert forall|i: int| 0 <= i < self@.len() implies (#[trigger] self@[i].result is Some <==> (
            self@[i].status == TaskStatus::Completed || self@[i].status == TaskStatus::Failed)) by {
                if i < old(self)@.len() {
                    assert(self@[i] == old(self)@[i]);
                }
            }
        }
        id
    }

    /// Records the result of the tool that task `id` runs: a working task
    /// becomes completed (or failed, with `failed`) and keeps `outcome`;
    /// a task that is no longer working, or an unknown id, changes nothing.
    /// Returns whether the result was kept; `now_ms` is when it came.
    pub fn finish(&mut self, id: &str, outcome: T, failed: bool, now_ms: u64) -> (kept: bool)
        requires
            old(self).wf(),
        ensures
            final(self).wf(),
            final(self).next_number() == old(self).next_number(),
            final(self)@.len() == old(self)@.len(),
            kept == exists|i: int|
                0 <= i < old(self)@.len() && old(self)@[i].id@ == id@ && old(self)@[i].status
                    == TaskStatus::Working,
            forall|i: int|
                0 <= i < old(self)@.len() ==> if old(self)@[i].id@ == id@ && old(self)@[i].status
                    == TaskStatus::Working {
                    &&& final(self)@[i].number == old(self)@[i].number
                    &&& final(self)@[i].id == old(self)@[i].id
                    &&& final(self)@[i].status == (if failed {
                        TaskStatus::Failed
                    } else {
                        TaskStatus::Completed
                    })
                    &&& final(self)@[i].ttl_ms == old(self)@[i].ttl_ms
                    &&& final(self)@[i].created_at_ms == old(self)@[i].created_at_ms
                    &&& final(self)@[i].updated_at_ms == now_ms
                    &&& final(self)@[i].result == Some(outcome)
                } else {
                    final(self)@[i] == old(self)@[i]
                },
    {
        proof {
            self.lemma_ids_unique();
        }
        match self.position(id) {
            Some(i) => {
                if self.entries[i].status != TaskStatus::Working {
                    return false;
                }
                let mut e = self.entries.remove(i);
                e.status = if failed {
                    TaskStatus::Failed
                } else {
                    TaskStatus::Completed
                };
                e.result = Some(outcome);
                e.updated_at_ms = now_ms;
                self.entries.insert(i, e);
                proof {
                    assert forall|k: int| 0 <= k < self@.len() && k != i implies self@[k] == old(
                        self,
                    )@[k] by {}
                }
                true
            },
            None => false,
        }
    }

    /// Drops the tasks whose time to live has passed at `now_ms`; the
    /// others stay, in their order.
    pub fn expire(&mut self, now_ms: u64)
        requires
            old(self).wf(),
        ensures
            final(self).wf(),
            final(self).next_number() == old(self).next_number(),
            final(self)@ == old(self)@.filter(alive(now_ms)),
    {
        let ghost orig = self@;
        let n: usize = self.entries.len();
        let mut rest: Vec<TaskEntry<T>> = Vec::new();
        std::mem::swap(&mut rest, &mut self.entries);
        let ghost p = alive::<T>(now_ms);
        let mut k: usize = 0;
        proof {
            reveal(Seq::filter);
            assert(orig.take(0).filter(p) =~= Seq::<TaskEntry<T>>::empty());
        }
        while rest.len() > 0
            invariant
                tasks_wf(orig, self.next as nat),
                self.next == old(self).next,
                p == alive::<T>(now_ms),
                orig == old(self)@,
                n == orig.len(),
                k + rest@.len() == orig.len(),
                rest@ == orig.skip(k as int),
                self.entries@ == orig.take(k as int).filter(p),
                tasks_wf(self.entries@, self.next as nat),
                forall|a: int, b: int|
                    0 <= a < self.entries@.len() && k <= b < orig.len() ==> self.entries@[a].number
                        < orig[b].number,
            decreases rest@.len(),
        {
            let e = rest.remove(0);
            proof {
                assert(e == orig[k as int]);
                assert(rest@ =~= orig.skip(k + 1));
                let t = orig.take(k + 1);
                assert(t.drop_last() =~= orig.take(k as int));
                assert(t.last() == e);
                reveal(Seq::filter);
                assert(t.filter(p) == (if p(e) {
                    orig.take(k as int).filter(p).push(e)
                } else {
                    orig.take(k as int).filter(p)
                }));
            }
            let gone = match e.ttl_ms {
                Some(t) => e.created_at_ms as u128 + t as u128 <= now_ms as u128,
                None => false,
            };
            assert(alive::<T>(now_ms)(e) == !expired(e, now_ms));
            assert(p(e) == !expired(e, now_ms));
            assert(gone == !p(e));
            if !gone {
                let ghost before = self.entries@;
                self.entries.push(e);
                proof {
                    assert(self.entries@ == before.push(e));
                    assert forall|a: int, b: int|
                        0 <= a < self.entries@.len() && k + 1 <= b < orig.len() implies self.entries@[a].number
                        < orig[b].number by {
                        if a < before.len() {
                            assert(self.entries@[a] == before[a]);
                        }
                    }
                    assert forall|a: int| 0 <= a < self.entries@.len() implies #[trigger] self.entries@[a].id@
                        == task_id_of(self.entries@[a].number as nat) by {
                        if a < before.len() {
                            assert(self.entries@[a] == before[a]);
                        }
                    }
                    assert forall|a: int| 0 <= a < self.entries@.len() implies #[trigger] self.entries@[a].number
                        < self.next by {
                        if a < before.len() {
                            assert(self.entries@[a] == before[a]);
                        }
                    }
                    assert forall|a: int, b: int| 0 <= a < b < self.entries@.len() implies self.entries@[a].number
                        < self.entries@[b].number by {
                        assert(self.entries@[a] == before[a]);
                        if b < before.len() {
                            assert(self.entries@[b] == before[b]);
                        }
                    }
                    assert forall|a: int| 0 <= a < self.entries@.len() implies (
                    #[trigger] self.entries@[a].result is Some <==> (self.entries@[a].status
                        == TaskStatus::Completed || self.entries@[a].status == TaskStatus::Failed)) by {
                        if a < before.len() {
                            assert(self.entries@[a] == before[a]);
                        }
                    }
                }
            }
            k = k + 1;
        }
        assert(orig.take(orig.len() as int) =~= orig);
    }

    /// Answers `tasks/get`: the state of task `id`.
    pub fn get(&self, id: &str) -> (r: Result<TaskInfo, RpcError>)
        requires
            self.wf(),
        ensures
            forall|i: int| 0 <= i < self@.len() && self@[i].id@ == id@ ==> (r matches Ok(info) && reports(
                info,
                self@[i],
            )),
            (forall|i: int| 0 <= i < self@.len() ==> self@[i].id@ != id@) ==> (r matches Err(e)
                && not_found(e, id@)),
    {
        proof {
            self.lemma_ids_unique();
        }
        match self.position(id) {
            Some(i) => Ok(self.info_at(i)),
            None => Err(task_not_found(id)),
        }
    }

    /// Answers `tasks/list`: every task, in the order they were created.
    pub fn list(&self) -> (r: Vec<TaskInfo>)
        ensures
            r@.len() == self@.len(),
            forall|i: int| 0 <= i < r@.len() ==> reports(#[trigger] r@[i], self@[i]),
    {
        let mut out: Vec<TaskInfo> = Vec::new();
        let mut i: usize = 0;
        while i < self.entries.len()
            invariant
                i <= self@.len(),
                out@.len() == i,
                forall|k: int| 0 <= k < i ==> reports(#[trigger] out@[k], self@[k]),
            decreases self@.len() - i,
        {
            let info = self.info_at(i);
            out.push(info);
            i = i + 1;
        }
        out
    }

    /// Answers `tasks/result`: the tool's result once the task completed or
    /// failed, `None` while it is still working, and an error for a
    /// cancelled task or an unknown id.
    pub fn result(&self, id: &str) -> (r: Result<Option<&T>, RpcError>)
        requires
            self.wf(),
        ensures
            forall|i: int|
                0 <= i < self@.len() && self@[i].id@ == id@ ==> match self@[i].status {
                    TaskStatus::Working => r == Ok::<Option<&T>, RpcError>(None),
                    TaskStatus::Cancelled => r matches Err(e) && e.code == ERR_INVALID_PARAMS
                        && e.message@ == "Task was cancelled: "@ + id@,
                    _ => r matches Ok(Some(v)) && self@[i].result == Some(*v),
                },
            (forall|i: int| 0 <= i < self@.len() ==> self@[i].id@ != id@) ==> (r matches Err(e)
                && not_found(e, id@)),
    {
        proof {
            self.lemma_ids_unique();
        }
        match self.position(id) {
            Some(i) => {
                let e = &self.entries[i];
                match e.status {
                    TaskStatus::Working => Ok(None),
                    TaskStatus::Cancelled => {
                        let mut m = String::from_str("Task was cancelled: ");
                        m.append(id);
                        Err(RpcError { code: ERR_INVALID_PARAMS, message: m })
                    },
                    _ => match &e.result {
                        Some(v) => Ok(Some(v)),
                        None => Ok(None),
                    },
                }
            },
            None => Err(task_not_found(id)),
        }
    }

    /// Answers `tasks/cancel`: a working task becomes cancelled and is
    /// reported; a task that already ended cannot be cancelled and is left
    /// as it is; an unknown id is an error. `now_ms` is when it was asked.
    pub fn cancel(&mut self, id: &str, now_ms: u64) -> (r: Result<TaskInfo, RpcError>)
        requires
            old(self).wf(),
        ensures
            final(self).wf(),
            final(self).next_number() == old(self).next_number(),
            final(self)@.len() == old(self)@.len(),
            forall|i: int|
                0 <= i < old(self)@.len() ==> if old(self)@[i].id@ == id@ {
                    if old(self)@[i].status == TaskStatus::Working {
                        &&& final(self)@[i] == (TaskEntry {
                            status: TaskStatus::Cancelled,
                            updated_at_ms: now_ms,
                            ..old(self)@[i]
                        })
                        &&& r matches Ok(info)
                        &&& reports(info, final(self)@[i])
                    } else {
                        &&& final(self)@[i] == old(self)@[i]
                        &&& r matches Err(e)
                        &&& e.code == ERR_INVALID_PARAMS
                        &&& e.message@ == "Cannot cancel task: already in terminal status '"@
                            + status_name(old(self)@[i].status) + "'"@
                    }
                } else {
                    final(self)@[i] == old(self)@[i]
                },
            (forall|i: int| 0 <= i < old(self)@.len() ==> old(self)@[i].id@ != id@) ==> (r matches Err(e)
                && not_found(e, id@)),
    {
        proof {
            self.lemma_ids_unique();
        }
        match self.position(id) {
            Some(i) => {
                let status = self.entries[i].status;
                if status != TaskStatus::Working {
                    let mut m = String::from_str("Cannot cancel task: already in terminal status '");
                    m.append(status.as_str());
                    m.append("'");
                    return Err(RpcError { code: ERR_INVALID_PARAMS, message: m });
                }
                let mut e = self.entries.remove(i);
                e.status = TaskStatus::Cancelled;
                e.updated_at_ms = now_ms;
                self.entries.insert(i, e);
                proof {
                    assert forall|k: int| 0 <= k < self@.len() && k != i implies self@[k] == old(
                        self,
                    )@[k] by {}
                }
                Ok(self.info_at(i))
            },
            None => Err(task_not_found(id)),
        }
    }
}

/// The error for an id that names no task.
fn task_not_found(id: &str) -> (r: RpcError)
    ensures
        not_found(r, id@),
{
    let mut m = String::from_str("Task not found: ");
    m.append(id);
    RpcError { code: ERR_INVALID_PARAMS, message: m }
}

} // verus!
