//! The task table: task records, their status transitions and the global
//! concurrency permits.
use vstd::prelude::*;
use crate::chunk::ResumeInfo;
use crate::config::Config;
use crate::error::DownloadError;

verus! {

/// Status of a task.
#[derive(Debug)]
pub enum TaskStatus {
    Pending,
    Running,
    Completed,
    Failed(String),
    Paused,
    Cancelled,
}

/// One record of the task table.
#[derive(Debug)]
pub struct DownloadTaskMeta {
    pub id: u128,
    pub url: String,
    pub file: String,
    pub status: TaskStatus,
    pub downloaded: u64,
    pub total: u64,
    /// Whether the task holds one of the global permits.
    pub holds_permit: bool,
}

/// Counts of tasks by status.
#[derive(Clone, Copy, Debug, PartialEq, Eq, Structural)]
pub struct TaskStats {
    pub total: usize,
    pub running: usize,
    pub completed: usize,
    pub failed: usize,
    pub paused: usize,
}

/// What became of a start request.
#[derive(Clone, Copy, Debug, PartialEq, Eq, Structural)]
pub enum StartOutcome {
    /// The task is now running.
    Started,
    /// No permit is free; the request has to wait for one.
    NoPermit,
    /// The task is not pending or paused.
    NotStartable,
    /// No task has this id.
    NotFound,
}

/// The task manager: owns the task table and the global permits.
#[derive(Debug)]
pub struct DownloadManagerActor {
    pub max_permits: usize,
    pub available_permits: usize,
    pub metas: Vec<DownloadTaskMeta>,
}

/// Completed, failed and cancelled are terminal.
pub open spec fn is_terminal(s: TaskStatus) -> bool {
    s is Completed || s is Failed || s is Cancelled
}

/// The variant of a status, as a number.
pub open spec fn status_kind(s: TaskStatus) -> int {
    match s {
        TaskStatus::Pending => 0,
        TaskStatus::Running => 1,
        TaskStatus::Completed => 2,
        TaskStatus::Failed(_) => 3,
        TaskStatus::Paused => 4,
        TaskStatus::Cancelled => 5,
    }
}

/// Number of records for which `p` holds.
pub open spec fn count_where(s: Seq<DownloadTaskMeta>, p: spec_fn(DownloadTaskMeta) -> bool) -> nat
    decreases s.len(),
{
    if s.len() == 0 {
        0
    } else {
        count_where(s.drop_last(), p) + if p(s.last()) {
            1nat
        } else {
            0nat
        }
    }
}

pub open spec fn is_running(m: DownloadTaskMeta) -> bool {
    m.status is Running
}

pub open spec fn holds(m: DownloadTaskMeta) -> bool {
    m.holds_permit
}

pub open spec fn status_is(k: int) -> spec_fn(DownloadTaskMeta) -> bool {
    |m: DownloadTaskMeta| status_kind(m.status) == k
}

proof fn lemma_count_update(
    s: Seq<DownloadTaskMeta>,
    i: int,
    x: DownloadTaskMeta,
    p: spec_fn(DownloadTaskMeta) -> bool,
)
    requires
        0 <= i < s.len(),
    ensures
        count_where(s.update(i, x), p) + (if p(s[i]) {
            1int
        } else {
            0int
        }) == count_where(s, p) + (if p(x) {
            1int
        } else {
            0int
        }),
    decreases s.len(),
{
    if i == s.len() - 1 {
        assert(s.update(i, x).drop_last() =~= s.drop_last());
    } else {
        assert(s.update(i, x).drop_last() =~= s.drop_last().update(i, x));
        lemma_count_update(s.drop_last(), i, x, p);
    }
}

proof fn lemma_count_push(s: Seq<DownloadTaskMeta>, x: DownloadTaskMeta, p: spec_fn(DownloadTaskMeta) -> bool)
    ensures
        count_where(s.push(x), p) == count_where(s, p) + if p(x) {
            1nat
        } else {
            0nat
        },
{
    assert(s.push(x).drop_last() =~= s);
}

proof fn lemma_count_implies(
    s: Seq<DownloadTaskMeta>,
    p: spec_fn(DownloadTaskMeta) -> bool,
    q: spec_fn(DownloadTaskMeta) -> bool,
)
    requires
        forall|i: int| 0 <= i < s.len() && p(#[trigger] s[i]) ==> q(s[i]),
    ensures
        count_where(s, p) <= count_where(s, q),
    decreases s.len(),
{
    if s.len() > 0 {
        lemma_count_implies(s.drop_last(), p, q);
    }
}

proof fn lemma_count_prefix(s: Seq<DownloadTaskMeta>, i: int, p: spec_fn(DownloadTaskMeta) -> bool)
    requires
        0 <= i < s.len(),
    ensures
        count_where(s.subrange(0, i + 1), p) == count_where(s.subrange(0, i), p) + if p(s[i]) {
            1nat
        } else {
            0nat
        },
{
    assert(s.subrange(0, i + 1).drop_last() =~= s.subrange(0, i));
}

proof fn lemma_count_le_len(s: Seq<DownloadTaskMeta>, p: spec_fn(DownloadTaskMeta) -> bool)
    ensures
        count_where(s, p) <= s.len(),
    decreases s.len(),
{
    if s.len() > 0 {
        lemma_count_le_len(s.drop_last(), p);
    }
}

impl Clone for TaskStatus {
    fn clone(&self) -> (r: Self)
        ensures
            r == *self,
    {
        match self {
            TaskStatus::Pending => TaskStatus::Pending,
            TaskStatus::Running => TaskStatus::Running,
            TaskStatus::Completed => TaskStatus::Completed,
            TaskStatus::Failed(m) => TaskStatus::Failed(m.clone()),
            TaskStatus::Paused => TaskStatus::Paused,
            TaskStatus::Cancelled => TaskStatus::Cancelled,
        }
    }
}

impl Clone for DownloadTaskMeta {
    fn clone(&self) -> (r: Self)
        ensures
            r == *self,
    {
        DownloadTaskMeta {
            id: self.id,
            url: self.url.clone(),
            file: self.file.clone(),
            status: self.status.clone(),
            downloaded: self.downloaded,
            total: self.total,
            holds_permit: self.holds_permit,
        }
    }
}

impl DownloadTaskMeta {
    /// Progress in whole percent, 0 while the size is unknown.
    pub fn progress_percent(&self) -> (r: u64)
        ensures
            self.total == 0 ==> r == 0,
            self.total > 0 ==> r == (if self.downloaded >= self.total {
                100
            } else {
                self.downloaded as int * 100 / self.total as int
            }),
    {
        if self.total == 0 {
            0
        } else if self.downloaded >= self.total {
            100
        } else {
            proof {
                let d = self.downloaded as int;
                let t = self.total as int;
                vstd::arithmetic::div_mod::lemma_div_is_ordered(d * 100, t * 100, t);
                vstd::arithmetic::div_mod::lemma_fundamental_div_mod_converse(t * 100, t, 100, 0);
            }
            ((self.downloaded as u128 * 100) / self.total as u128) as u64
        }
    }
}

impl DownloadManagerActor {
    /// Ids are unique, a running task holds a permit, a pending or terminal
    /// one holds none, and free plus held permits make up the total.
    pub open spec fn wf(&self) -> bool {
        let s = self.metas@;
        &&& forall|i: int, j: int|
            0 <= i < s.len() && 0 <= j < s.len() && i != j ==> (#[trigger] s[i]).id != (
            #[trigger] s[j]).id
        &&& forall|i: int| 0 <= i < s.len() && (#[trigger] s[i]).status is Running ==> s[i].holds_permit
        &&& forall|i: int|
            0 <= i < s.len() && ((#[trigger] s[i]).status is Pending || is_terminal(s[i].status))
                ==> !s[i].holds_permit
        &&& self.available_permits + count_where(s, |m: DownloadTaskMeta| holds(m)) == self.max_permits
    }

    /// Index of the record with id `id`, if any.
    pub open spec fn index_of(&self, id: u128) -> Option<int> {
        if exists|i: int| 0 <= i < self.metas@.len() && (#[trigger] self.metas@[i]).id == id {
            Some(choose|i: int| 0 <= i < self.metas@.len() && (#[trigger] self.metas@[i]).id == id)
        } else {
            None
        }
    }

    /// Every record keeps its identity; only the record at `i` may change, to `x`.
    pub open spec fn changed_only_at(&self, old: &Self, i: int, x: DownloadTaskMeta) -> bool {
        &&& 0 <= i < old.metas@.len()
        &&& self.metas@ == old.metas@.update(i, x)
        &&& x.id == old.metas@[i].id
        &&& x.url@ == old.metas@[i].url@
        &&& x.file@ == old.metas@[i].file@
        &&& self.max_permits == old.max_permits
    }

    /// An empty table with `max_concurrent_downloads` free permits.
    pub fn new(config: &Config) -> (r: Self)
        ensures
            r.wf(),
            r.metas@.len() == 0,
            r.max_permits == config.max_concurrent_downloads,
            r.available_permits == config.max_concurrent_downloads,
    {
        DownloadManagerActor {
            max_permits: config.max_concurrent_downloads,
            available_permits: config.max_concurrent_downloads,
            metas: Vec::new(),
        }
    }

    /// Position of the record with id `id`.
    pub fn find(&self, id: u128) -> (r: Option<usize>)
        requires
            self.wf(),
        ensures
            match r {
                Some(i) => i < self.metas@.len() && self.metas@[i as int].id == id && self.index_of(id)
                    == Some(i as int),
                None => self.index_of(id) is None,
            },
    {
        let mut i: usize = 0;
        while i < self.metas.len()
            invariant
                self.wf(),
                i <= self.metas@.len(),
                forall|j: int| 0 <= j < i ==> (#[trigger] self.metas@[j]).id != id,
            decreases self.metas@.len() - i,
        {
            if self.metas[i].id == id {
                proof {
                    let k = choose|k: int| 0 <= k < self.metas@.len() && (#[trigger] self.metas@[k]).id == id;
                    assert(self.metas@[k].id == self.metas@[i as int].id);
                    assert(k == i);
                }
                return Some(i);
            }
            i = i + 1;
        }
        None
    }

    fn replace_status(&mut self, i: usize, status: TaskStatus, holds_permit: bool, downloaded: u64)
        requires
            i < old(self).metas@.len(),
        ensures
            final(self).metas@ == old(self).metas@.update(
                i as int,
                DownloadTaskMeta { status, holds_permit, downloaded, ..old(self).metas@[i as int] },
            ),
            final(self).max_permits == old(self).max_permits,
            final(self).available_permits == old(self).available_permits,
    {
        let mut m = self.metas.remove(i);
        m.status = status;
        m.holds_permit = holds_permit;
        m.downloaded = downloaded;
        self.metas.insert(i, m);
        proof {
            assert(self.metas@ =~= old(self).metas@.update(
                i as int,
                DownloadTaskMeta { status, holds_permit, downloaded, ..old(self).metas@[i as int] },
            ));
        }
    }

    /// Registers a pending task with id `id`; an id already in the table is
    /// refused and nothing changes.
    pub fn create_task_with_id(&mut self, id: u128, url: &str, file: &str) -> (r: Result<u128, DownloadError>)
        requires
            old(self).wf(),
        ensures
            final(self).wf(),
            final(self).max_permits == old(self).max_permits,
            r is Ok <==> old(self).index_of(id) is None,
            r matches Ok(v) ==> v == id && final(self).metas@ == old(self).metas@.push(
                final(self).metas@.last(),
            ) && final(self).metas@.last().id == id && final(self).metas@.last().url@ == url@
                && final(self).metas@.last().file@ == file@
                && final(self).metas@.last().status is Pending
                && final(self).metas@.last().downloaded == 0 && final(self).metas@.last().total == 0
                && !final(self).metas@.last().holds_permit,
            r is Err ==> final(self).metas@ == old(self).metas@,
            final(self).available_permits == old(self).available_permits,
    {
        if self.find(id).is_some() {
            return Err(DownloadError::unknown("task id already in use"));
        }
        let m = DownloadTaskMeta {
            id,
            url: String::from_str(url),
            file: String::from_str(file),
            status: TaskStatus::Pending,
            downloaded: 0,
            total: 0,
            holds_permit: false,
        };
        proof {
            lemma_count_push(self.metas@, m, |m: DownloadTaskMeta| holds(m));
        }
        self.metas.push(m);
        Ok(id)
    }

    /// Starts a pending or paused task: it runs if it already holds a permit
    /// (a paused task keeps its own) or one is free, which it then takes.
    pub fn try_start(&mut self, id: u128) -> (r: StartOutcome)
        requires
            old(self).wf(),
        ensures
            final(self).wf(),
            final(self).max_permits == old(self).max_permits,
            old(self).index_of(id) is None ==> r == StartOutcome::NotFound && final(self).metas@
                == old(self).metas@,
            old(self).index_of(id) matches Some(i) ==> {
                let m = old(self).metas@[i];
                &&& (!(m.status is Pending || m.status is Paused)) ==> r == StartOutcome::NotStartable
                    && final(self).metas@ == old(self).metas@
                &&& (m.status is Pending || m.status is Paused) && !m.holds_permit
                    && old(self).available_permits == 0 ==> r == StartOutcome::NoPermit
                    && final(self).metas@ == old(self).metas@
                &&& (m.status is Pending || m.status is Paused) && (m.holds_permit
                    || old(self).available_permits > 0) ==> r == StartOutcome::Started
                    && final(self).changed_only_at(
                    old(self),
                    i,
                    DownloadTaskMeta { status: TaskStatus::Running, holds_permit: true, ..m },
                ) && final(self).available_permits == old(self).available_permits - (if m.holds_permit {
                    0int
                } else {
                    1int
                })
            },
    {
        let i = match self.find(id) {
            Some(i) => i,
            None => {
                return StartOutcome::NotFound;
            },
        };
        let startable = match self.metas[i].status {
            TaskStatus::Pending => true,
            TaskStatus::Paused => true,
            _ => false,
        };
        if !startable {
            return StartOutcome::NotStartable;
        }
        let held = self.metas[i].holds_permit;
        if !held && self.available_permits == 0 {
            return StartOutcome::NoPermit;
        }
        let ghost m = self.metas@[i as int];
        let ghost x = DownloadTaskMeta { status: TaskStatus::Running, holds_permit: true, ..m };
        proof {
            lemma_count_update(self.metas@, i as int, x, |m: DownloadTaskMeta| holds(m));
        }
        let d = self.metas[i].downloaded;
        self.replace_status(i, TaskStatus::Running, true, d);
        if !held {
            self.available_permits = self.available_permits - 1;
        }
        proof {
            assert(self.metas@[i as int] == x);
        }
        StartOutcome::Started
    }

    /// Sets the status of task `id` to `to` when `allowed` holds, releasing its
    /// permit when `to` is terminal; a completed task counts all its bytes.
    /// Returns whether the task was found and changed.
    fn transition(&mut self, id: u128, to: TaskStatus, allowed: bool) -> (r: bool)
        requires
            old(self).wf(),
            !(to is Running),
            !(to is Pending),
        ensures
            final(self).wf(),
            final(self).max_permits == old(self).max_permits,
            !r ==> final(self).metas@ == old(self).metas@ && final(self).available_permits
                == old(self).available_permits,
            r <==> allowed && old(self).index_of(id) is Some,
            r ==> (old(self).index_of(id) matches Some(i) && {
                let m = old(self).metas@[i];
                let keep = !is_terminal(to) && m.holds_permit;
                let d = if to is Completed {
                    m.total
                } else {
                    m.downloaded
                };
                &&& final(self).changed_only_at(
                    old(self),
                    i,
                    DownloadTaskMeta { status: to, holds_permit: keep, downloaded: d, ..m },
                )
                &&& final(self).available_permits == old(self).available_permits + (if m.holds_permit
                    && !keep {
                    1int
                } else {
                    0int
                })
            }),
    {
        if !allowed {
            return false;
        }
        let i = match self.find(id) {
            Some(i) => i,
            None => {
                return false;
            },
        };
        let held = self.metas[i].holds_permit;
        let terminal = match to {
            TaskStatus::Completed => true,
            TaskStatus::Failed(_) => true,
            TaskStatus::Cancelled => true,
            _ => false,
        };
        let keep = !terminal && held;
        let completed = match to {
            TaskStatus::Completed => true,
            _ => false,
        };
        let d = if completed {
            self.metas[i].total
        } else {
            self.metas[i].downloaded
        };
        let ghost m = self.metas@[i as int];
        let ghost x = DownloadTaskMeta { status: to, holds_permit: keep, downloaded: d, ..m };
        proof {
            lemma_count_update(self.metas@, i as int, x, |m: DownloadTaskMeta| holds(m));
            lemma_count_le_len(self.metas@, |m: DownloadTaskMeta| holds(m));
        }
        self.replace_status(i, to, keep, d);
        if held && !keep {
            self.available_permits = self.available_permits + 1;
        }
        proof {
            assert(self.metas@[i as int] == x);
        }
        true
    }

    fn status_kind_of(&self, id: u128) -> (r: Option<u8>)
        requires
            self.wf(),
        ensures
            match self.index_of(id) {
                Some(i) => r == Some(status_kind(self.metas@[i].status) as u8),
                None => r is None,
            },
    {
        match self.find(id) {
            Some(i) => Some(
                match self.metas[i].status {
                    TaskStatus::Pending => 0,
                    TaskStatus::Running => 1,
                    TaskStatus::Completed => 2,
                    TaskStatus::Failed(_) => 3,
                    TaskStatus::Paused => 4,
                    TaskStatus::Cancelled => 5,
                },
            ),
            None => None,
        }
    }

    /// Pauses a running task; it keeps its permit. Other tasks are left alone.
    pub fn pause_task(&mut self, id: u128) -> (r: bool)
        requires
            old(self).wf(),
        ensures
            final(self).wf(),
            r <==> (old(self).index_of(id) matches Some(i) && old(self).metas@[i].status is Running),
            !r ==> final(self).metas@ == old(self).metas@,
            r ==> (old(self).index_of(id) matches Some(i) && final(self).changed_only_at(
                old(self),
                i,
                DownloadTaskMeta { status: TaskStatus::Paused, ..old(self).metas@[i] },
            ) && final(self).available_permits == old(self).available_permits),
    {
        let k = self.status_kind_of(id);
        self.transition(id, TaskStatus::Paused, k == Some(1u8))
    }

    /// Cancels a running or paused task and releases its permit.
    pub fn cancel_task(&mut self, id: u128) -> (r: bool)
        requires
            old(self).wf(),
        ensures
            final(self).wf(),
            r <==> (old(self).index_of(id) matches Some(i) && (old(self).metas@[i].status is Running
                || old(self).metas@[i].status is Paused)),
            !r ==> final(self).metas@ == old(self).metas@,
            r ==> (old(self).index_of(id) matches Some(i) && final(self).changed_only_at(
                old(self),
                i,
                DownloadTaskMeta {
                    status: TaskStatus::Cancelled,
                    holds_permit: false,
                    ..old(self).metas@[i]
                },
            ) && final(self).available_permits == old(self).available_permits + (if old(
                self,
            ).metas@[i].holds_permit {
                1int
            } else {
                0int
            })),
    {
        let k = self.status_kind_of(id);
        self.transition(id, TaskStatus::Cancelled, k == Some(1u8) || k == Some(4u8))
    }

    /// Marks a running task completed with all its bytes and releases its
    /// permit.
    pub fn mark_task_completed(&mut self, id: u128) -> (r: bool)
        requires
            old(self).wf(),
        ensures
            final(self).wf(),
            r <==> (old(self).index_of(id) matches Some(i) && old(self).metas@[i].status is Running),
            !r ==> final(self).metas@ == old(self).metas@,
            r ==> (old(self).index_of(id) matches Some(i) && final(self).changed_only_at(
                old(self),
                i,
                DownloadTaskMeta {
                    status: TaskStatus::Completed,
                    holds_permit: false,
                    downloaded: old(self).metas@[i].total,
                    ..old(self).metas@[i]
                },
            ) && final(self).available_permits == old(self).available_permits + 1),
    {
        let k = self.status_kind_of(id);
        self.transition(id, TaskStatus::Completed, k == Some(1u8))
    }

    /// Marks a running task failed with `reason` and releases its permit.
    pub fn mark_task_failed(&mut self, id: u128, reason: String) -> (r: bool)
        requires
            old(self).wf(),
        ensures
            final(self).wf(),
            r <==> (old(self).index_of(id) matches Some(i) && old(self).metas@[i].status is Running),
            !r ==> final(self).metas@ == old(self).metas@,
            r ==> (old(self).index_of(id) matches Some(i) && final(self).changed_only_at(
                old(self),
                i,
                DownloadTaskMeta {
                    status: TaskStatus::Failed(reason),
                    holds_permit: false,
                    ..old(self).metas@[i]
                },
            ) && final(self).available_permits == old(self).available_permits + 1),
    {
        let k = self.status_kind_of(id);
        self.transition(id, TaskStatus::Failed(reason), k == Some(1u8))
    }

    /// Registers a pending task under a fresh random id.
    pub fn create_task(&mut self, url: &str, file: &str) -> (r: Result<u128, DownloadError>)
        requires
            old(self).wf(),
        ensures
            final(self).wf(),
            final(self).max_permits == old(self).max_permits,
            old(self).metas@.len() == 0 ==> r is Ok,
            r is Err ==> old(self).metas@.len() > 0 && final(self).metas@ == old(self).metas@,
            r matches Ok(id) ==> old(self).index_of(id) is None && final(self).metas@ == old(self).metas@.push(
                final(self).metas@.last(),
            ) && final(self).metas@.last().id == id && final(self).metas@.last().url@ == url@
                && final(self).metas@.last().file@ == file@
                && final(self).metas@.last().status is Pending
                && final(self).metas@.last().downloaded == 0 && final(self).metas@.last().total == 0
                && !final(self).metas@.last().holds_permit,
            final(self).available_permits == old(self).available_permits,
    {
        let id = new_task_id();
        self.create_task_with_id(id, url, file)
    }

    fn append_record(&mut self, m: DownloadTaskMeta)
        requires
            old(self).wf(),
            old(self).index_of(m.id) is None,
            !m.holds_permit,
            !(m.status is Running),
        ensures
            final(self).wf(),
            final(self).metas@ == old(self).metas@.push(m),
            final(self).max_permits == old(self).max_permits,
            final(self).available_permits == old(self).available_permits,
    {
        proof {
            lemma_count_push(self.metas@, m, |m: DownloadTaskMeta| holds(m));
        }
        self.metas.push(m);
        proof {
            assert forall|i: int, j: int|
                0 <= i < self.metas@.len() && 0 <= j < self.metas@.len() && i != j implies (
                #[trigger] self.metas@[i]).id != (#[trigger] self.metas@[j]).id by {
                if i < old(self).metas@.len() && j < old(self).metas@.len() {
                    assert(self.metas@[i] == old(self).metas@[i]);
                    assert(self.metas@[j] == old(self).metas@[j]);
                } else if i < old(self).metas@.len() {
                    assert(self.metas@[i] == old(self).metas@[i]);
                } else if j < old(self).metas@.len() {
                    assert(self.metas@[j] == old(self).metas@[j]);
                }
            }
        }
    }

    /// Adds the records of a saved task table whose ids are not yet known.
    /// A record saved as running comes back paused, holding no permit.
    pub fn load_tasks_from_file(&mut self, list: &Vec<DownloadTaskMeta>)
        requires
            old(self).wf(),
        ensures
            final(self).wf(),
            final(self).max_permits == old(self).max_permits,
            final(self).available_permits == old(self).available_permits,
            final(self).metas@.len() >= old(self).metas@.len(),
            final(self).metas@.subrange(0, old(self).metas@.len() as int) == old(self).metas@,
            forall|k: int| 0 <= k < list@.len() ==> final(self).index_of(#[trigger] list@[k].id) is Some,
            forall|j: int|
                old(self).metas@.len() <= j < final(self).metas@.len() ==> exists|k: int|
                    0 <= k < list@.len() && restored(list@[k], #[trigger] final(self).metas@[j]),
    {
        let mut k: usize = 0;
        while k < list.len()
            invariant
                self.wf(),
                self.max_permits == old(self).max_permits,
                self.available_permits == old(self).available_permits,
                k <= list@.len(),
                self.metas@.len() >= old(self).metas@.len(),
                self.metas@.subrange(0, old(self).metas@.len() as int) == old(self).metas@,
                forall|k2: int| 0 <= k2 < k ==> self.index_of(#[trigger] list@[k2].id) is Some,
                forall|j: int|
                    old(self).metas@.len() <= j < self.metas@.len() ==> exists|k2: int|
                        0 <= k2 < k && restored(list@[k2], #[trigger] self.metas@[j]),
            decreases list@.len() - k,
        {
            let src = &list[k];
            if self.find(src.id).is_none() {
                let status = match &src.status {
                    TaskStatus::Running => TaskStatus::Paused,
                    other => other.clone(),
                };
                let m = DownloadTaskMeta {
                    id: src.id,
                    url: src.url.clone(),
                    file: src.file.clone(),
                    status,
                    downloaded: src.downloaded,
                    total: src.total,
                    holds_permit: false,
                };
                let ghost before = self.metas@;
                self.append_record(m);
                proof {
                    assert(self.metas@.subrange(0, old(self).metas@.len() as int) =~= before.subrange(
                        0,
                        old(self).metas@.len() as int,
                    ));
                    assert(self.metas@[before.len() as int].id == list@[k as int].id);
                    assert forall|k2: int| 0 <= k2 < k + 1 implies self.index_of(#[trigger] list@[k2].id) is Some by {
                        if k2 < k {
                            let i = choose|i: int| 0 <= i < before.len() && (#[trigger] before[i]).id == list@[k2].id;
                            assert(self.metas@[i] == before[i]);
                        } else {
                            assert(self.metas@[before.len() as int].id == list@[k2].id);
                        }
                    }
                    assert forall|j: int|
                        old(self).metas@.len() <= j < self.metas@.len() implies exists|k2: int|
                            0 <= k2 < k + 1 && restored(list@[k2], #[trigger] self.metas@[j]) by {
                        if j < before.len() {
                            assert(self.metas@[j] == before[j]);
                        } else {
                            assert(restored(list@[k as int], self.metas@[j]));
                        }
                    }
                }
            }
            k = k + 1;
        }
    }

    /// Re-creates, as paused tasks holding no permit, the tasks of resume
    /// records whose ids are not yet known.
    pub fn load_tasks_from_resume_files(&mut self, records: &Vec<ResumeInfo>)
        requires
            old(self).wf(),
        ensures
            final(self).wf(),
            final(self).max_permits == old(self).max_permits,
            final(self).available_permits == old(self).available_permits,
            final(self).metas@.len() >= old(self).metas@.len(),
            final(self).metas@.subrange(0, old(self).metas@.len() as int) == old(self).metas@,
            forall|k: int|
                0 <= k < records@.len() ==> final(self).index_of(#[trigger] records@[k].task_id) is Some,
            forall|j: int|
                old(self).metas@.len() <= j < final(self).metas@.len() ==> exists|k: int|
                    0 <= k < records@.len() && resumed(records@[k], #[trigger] final(self).metas@[j]),
    {
        let mut k: usize = 0;
        while k < records.len()
            invariant
                self.wf(),
                self.max_permits == old(self).max_permits,
                self.available_permits == old(self).available_permits,
                k <= records@.len(),
                self.metas@.len() >= old(self).metas@.len(),
                self.metas@.subrange(0, old(self).metas@.len() as int) == old(self).metas@,
                forall|k2: int| 0 <= k2 < k ==> self.index_of(#[trigger] records@[k2].task_id) is Some,
                forall|j: int|
                    old(self).metas@.len() <= j < self.metas@.len() ==> exists|k2: int|
                        0 <= k2 < k && resumed(records@[k2], #[trigger] self.metas@[j]),
            decreases records@.len() - k,
        {
            let rec = &records[k];
            if self.find(rec.task_id).is_none() {
                let m = DownloadTaskMeta {
                    id: rec.task_id,
                    url: rec.url.clone(),
                    file: rec.file.clone(),
                    status: TaskStatus::Paused,
                    downloaded: 0,
                    total: rec.total_size,
                    holds_permit: false,
                };
                let ghost before = self.metas@;
                self.append_record(m);
                proof {
                    assert(self.metas@.subrange(0, old(self).metas@.len() as int) =~= before.subrange(
                        0,
                        old(self).metas@.len() as int,
                    ));
                    assert forall|k2: int| 0 <= k2 < k + 1 implies self.index_of(#[trigger] records@[k2].task_id) is Some by {
                        if k2 < k {
                            let i = choose|i: int| 0 <= i < before.len() && (#[trigger] before[i]).id == records@[k2].task_id;
                            assert(self.metas@[i] == before[i]);
                        } else {
                            assert(self.metas@[before.len() as int].id == records@[k2].task_id);
                        }
                    }
                    assert forall|j: int|
                        old(self).metas@.len() <= j < self.metas@.len() implies exists|k2: int|
                            0 <= k2 < k + 1 && resumed(records@[k2], #[trigger] self.metas@[j]) by {
                        if j < before.len() {
                            assert(self.metas@[j] == before[j]);
                        } else {
                            assert(resumed(records@[k as int], self.metas@[j]));
                        }
                    }
                }
            }
            k = k + 1;
        }
    }

    /// Counts of tasks by status.
    pub fn get_stats(&self) -> (r: TaskStats)
        ensures
            r.total == self.metas@.len(),
            r.running == count_where(self.metas@, status_is(1)),
            r.completed == count_where(self.metas@, status_is(2)),
            r.failed == count_where(self.metas@, status_is(3)),
            r.paused == count_where(self.metas@, status_is(4)),
    {
        let mut st = TaskStats { total: self.metas.len(), running: 0, completed: 0, failed: 0, paused: 0 };
        let mut i: usize = 0;
        while i < self.metas.len()
            invariant
                i <= self.metas@.len(),
                st.total == self.metas@.len(),
                st.running == count_where(self.metas@.subrange(0, i as int), status_is(1)),
                st.completed == count_where(self.metas@.subrange(0, i as int), status_is(2)),
                st.failed == count_where(self.metas@.subrange(0, i as int), status_is(3)),
                st.paused == count_where(self.metas@.subrange(0, i as int), status_is(4)),
                st.running + st.completed + st.failed + st.paused <= i,
            decreases self.metas@.len() - i,
        {
            proof {
                lemma_count_prefix(self.metas@, i as int, status_is(1));
                lemma_count_prefix(self.metas@, i as int, status_is(2));
                lemma_count_prefix(self.metas@, i as int, status_is(3));
                lemma_count_prefix(self.metas@, i as int, status_is(4));
            }
            match self.metas[i].status {
                TaskStatus::Running => st.running = st.running + 1,
                TaskStatus::Completed => st.completed = st.completed + 1,
                TaskStatus::Failed(_) => st.failed = st.failed + 1,
                TaskStatus::Paused => st.paused = st.paused + 1,
                _ => {},
            }
            i = i + 1;
        }
        proof {
            assert(self.metas@.subrange(0, i as int) =~= self.metas@);
        }
        st
    }

    /// Status of task `id`.
    pub fn query_status(&self, id: u128) -> (r: Option<TaskStatus>)
        requires
            self.wf(),
        ensures
            match self.index_of(id) {
                Some(i) => r == Some(self.metas@[i].status),
                None => r is None,
            },
    {
        match self.find(id) {
            Some(i) => Some(self.metas[i].status.clone()),
            None => None,
        }
    }

    /// A copy of the record of task `id`.
    pub fn query_detail(&self, id: u128) -> (r: Option<DownloadTaskMeta>)
        requires
            self.wf(),
        ensures
            match self.index_of(id) {
                Some(i) => r == Some(self.metas@[i]),
                None => r is None,
            },
    {
        match self.find(id) {
            Some(i) => Some(self.metas[i].clone()),
            None => None,
        }
    }

    /// Progress of task `id` in whole percent.
    pub fn query_progress(&self, id: u128) -> (r: Option<u64>)
        requires
            self.wf(),
        ensures
            match self.index_of(id) {
                Some(i) => r matches Some(p) && p == (if self.metas@[i].total == 0 {
                    0
                } else if self.metas@[i].downloaded >= self.metas@[i].total {
                    100
                } else {
                    self.metas@[i].downloaded as int * 100 / self.metas@[i].total as int
                }),
                None => r is None,
            },
    {
        match self.find(id) {
            Some(i) => Some(self.metas[i].progress_percent()),
            None => None,
        }
    }

    /// Records the byte counters of task `id`.
    pub fn update_task_progress(&mut self, id: u128, downloaded: u64, total: u64) -> (r: bool)
        requires
            old(self).wf(),
        ensures
            final(self).wf(),
            final(self).available_permits == old(self).available_permits,
            r <==> old(self).index_of(id) is Some,
            !r ==> final(self).metas@ == old(self).metas@,
            r ==> (old(self).index_of(id) matches Some(i) && final(self).changed_only_at(
                old(self),
                i,
                DownloadTaskMeta { downloaded, total, ..old(self).metas@[i] },
            )),
    {
        let i = match self.find(id) {
            Some(i) => i,
            None => {
                return false;
            },
        };
        let mut m = self.metas.remove(i);
        m.downloaded = downloaded;
        m.total = total;
        self.metas.insert(i, m);
        proof {
            let x = DownloadTaskMeta { downloaded, total, ..old(self).metas@[i as int] };
            assert(self.metas@ =~= old(self).metas@.update(i as int, x));
            lemma_count_update(old(self).metas@, i as int, x, |m: DownloadTaskMeta| holds(m));
        }
        true
    }
}

/// Relies on uuid::Uuid::new_v4: a random 128-bit identifier; nothing is
/// promised of its value.
#[verifier::external_body]
pub(crate) fn new_task_id() -> (r: u128) {
    uuid::Uuid::new_v4().as_u128()
}

/// The part of `s` after its last `/` (all of `s` if it has none).
pub open spec fn last_segment(s: Seq<char>) -> Seq<char>
    decreases s.len(),
{
    if s.len() == 0 {
        s
    } else if s.last() == '/' {
        Seq::empty()
    } else {
        last_segment(s.drop_last()).push(s.last())
    }
}

proof fn lemma_last_segment_split(s: Seq<char>, i: int)
    requires
        0 <= i <= s.len(),
        forall|j: int| i <= j < s.len() ==> s[j] != '/',
    ensures
        last_segment(s) == last_segment(s.subrange(0, i)) + s.subrange(i, s.len() as int),
    decreases s.len() - i,
{
    if i == s.len() {
        assert(s.subrange(0, i) =~= s);
        assert(s.subrange(i, s.len() as int) =~= Seq::<char>::empty());
        assert(last_segment(s) + Seq::<char>::empty() =~= last_segment(s));
    } else {
        lemma_last_segment_split(s.drop_last(), i);
        assert(s.drop_last().subrange(0, i) =~= s.subrange(0, i));
        assert(s.subrange(i, s.len() as int) =~= s.drop_last().subrange(i, s.len() - 1).push(s.last()));
        assert(last_segment(s) == last_segment(s.drop_last()).push(s.last()));
        assert((last_segment(s.subrange(0, i)) + s.drop_last().subrange(i, s.len() - 1)).push(s.last())
            =~= last_segment(s.subrange(0, i)) + s.drop_last().subrange(i, s.len() - 1).push(s.last()));
    }
}

/// The file name a URL names: its last path segment, or `downloaded_file`
/// when that segment is empty.
pub fn get_filename_from_url(url: &str) -> (r: String)
    ensures
        r@ == (if last_segment(url@).len() == 0 {
            "downloaded_file"@
        } else {
            last_segment(url@)
        }),
{
    let n = url.unicode_len();
    let mut i: usize = n;
    while i > 0 && url.get_char(i - 1) != '/'
        invariant
            n == url@.len(),
            i <= n,
            forall|j: int| i <= j < n ==> url@[j] != '/',
        decreases i,
    {
        i = i - 1;
    }
    proof {
        lemma_last_segment_split(url@, i as int);
        if i > 0 {
            assert(url@.subrange(0, i as int).last() == url@[i - 1]);
        } else {
            assert(url@.subrange(0, 0) =~= Seq::<char>::empty());
        }
        assert(last_segment(url@.subrange(0, i as int)) =~= Seq::<char>::empty());
        assert(last_segment(url@) =~= url@.subrange(i as int, n as int));
    }
    if i == n {
        String::from_str("downloaded_file")
    } else {
        String::from_str(url.substring_char(i, n))
    }
}

/// `now` is the record `saved` as it is restored from a task table.
pub open spec fn restored(saved: DownloadTaskMeta, now: DownloadTaskMeta) -> bool {
    &&& now.id == saved.id
    &&& now.url@ == saved.url@
    &&& now.file@ == saved.file@
    &&& now.downloaded == saved.downloaded
    &&& now.total == saved.total
    &&& !now.holds_permit
    &&& (if saved.status is Running {
        now.status is Paused
    } else {
        now.status == saved.status
    })
}

/// `now` is the paused task re-created from the resume record `rec`.
pub open spec fn resumed(rec: ResumeInfo, now: DownloadTaskMeta) -> bool {
    &&& now.id == rec.task_id
    &&& now.url@ == rec.url@
    &&& now.file@ == rec.file@
    &&& now.status is Paused
    &&& now.downloaded == 0
    &&& now.total == rec.total_size
    &&& !now.holds_permit
}

/// At most `max_concurrent_downloads` tasks are running at any time.
pub proof fn lemma_running_within_permits(m: &DownloadManagerActor)
    requires
        m.wf(),
    ensures
        count_where(m.metas@, |t: DownloadTaskMeta| is_running(t)) <= m.max_permits,
{
    lemma_count_implies(m.metas@, |t: DownloadTaskMeta| is_running(t), |t: DownloadTaskMeta| holds(t));
}

} // verus!
