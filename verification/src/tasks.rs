//! The batch run record and its per-target references: the audit
//! trail of one execution of the synchronization pipeline.

use crate::errmap::map_insert;
use crate::errmap::ErrorMap;
use crate::sboms::SbomProviderKind;
use vstd::prelude::*;

verus! {

/// Discriminator for the provider that performed a vulnerability task.
#[derive(Debug, Clone)]
pub enum VulnerabilityProviderKind {
    /// The Snyk API.
    Snyk,
}

/// Discriminator indicating the kind of operation a task performed
/// and which provider performed it.
#[derive(Debug, Clone)]
pub enum TaskKind {
    /// The task assessed vulnerabilities.
    Vulnerabilities(VulnerabilityProviderKind),
    /// The task synchronized SBOM documents.
    Sbom(SbomProviderKind),
}

/// The lifecycle of a task: `Started` until the run finishes, then
/// exactly one of the terminal states.
#[derive(Debug, Clone, Copy, PartialEq, Eq, Structural)]
pub enum TaskStatus {
    /// The task has started and not yet finished.
    Started,
    /// Every target was processed without error.
    Complete,
    /// The task finished, with recoverable per-target errors.
    CompleteWithErrors,
    /// The task failed with an unrecoverable run-level error.
    Failed,
}

/// A batch job record: created once per invocation, mutated while the
/// run proceeds, never deleted.
#[derive(Debug)]
pub struct Task {
    /// The unique identifier for the task batch.
    pub id: String,
    /// The kind of work performed.
    pub kind: TaskKind,
    /// The total number of targets to be processed.
    pub count: u64,
    /// The Unix timestamp of creation, in seconds.
    pub timestamp: u64,
    /// Start time, in Unix seconds.
    pub start: u64,
    /// Finish time, in Unix seconds; equals `start` until finished.
    pub finish: u64,
    /// The duration of the completed task in seconds.
    pub duration_seconds: u64,
    /// Where the task stands in its lifecycle.
    pub status: TaskStatus,
    /// The run-level error, if the task failed.
    pub err: Option<String>,
    /// Recoverable errors, keyed by the target that produced each.
    pub ref_errs: ErrorMap,
    /// The total count of recoverable errors encountered.
    pub err_total: u64,
}

/// Relies on `std::time::SystemTime::now` (with `duration_since` and
/// `Duration::as_secs` converting the result): seconds since the Unix
/// epoch. The result depends on the clock, so nothing is promised of
/// it; a clock reading before the epoch comes back as zero, so a
/// clock fault stamps zero rather than failing the caller.
#[verifier::external_body]
fn unix_now() -> u64 {
    match std::time::SystemTime::now().duration_since(std::time::UNIX_EPOCH) {
        Ok(d) => d.as_secs(),
        Err(_) => 0,
    }
}

impl Task {
    /// The error map always has distinct keys.
    pub open spec fn wf(&self) -> bool {
        self.ref_errs.wf()
    }

    /// Creates a fresh `Started` record with empty counters.
    pub fn new(kind: TaskKind) -> (r: Result<Task, crate::errors::Error>)
        ensures
            r matches Ok(t) && t.id@ == Seq::<char>::empty() && t.kind == kind && t.count == 0
                && t.start == t.timestamp && t.finish == t.timestamp && t.duration_seconds == 0
                && t.status == TaskStatus::Started && t.err is None && t.ref_errs@ == Seq::<
                (Seq<char>, Seq<char>),
            >::empty() && t.err_total == 0 && t.wf(),
    {
        let timestamp = unix_now();
        Ok(
            Task {
                id: String::new(),
                kind,
                count: 0,
                timestamp,
                start: timestamp,
                finish: timestamp,
                duration_seconds: 0,
                status: TaskStatus::Started,
                err: None,
                ref_errs: ErrorMap::new(),
                err_total: 0,
            },
        )
    }

    /// Records a recoverable error for one target.
    pub fn ref_errs(&mut self, target_id: String, err: String)
        requires
            old(self).wf(),
        ensures
            final(self).wf(),
            final(self).ref_errs@ == map_insert(old(self).ref_errs@, target_id@, err@),
            final(self).id == old(self).id,
            final(self).kind == old(self).kind,
            final(self).count == old(self).count,
            final(self).timestamp == old(self).timestamp,
            final(self).start == old(self).start,
            final(self).finish == old(self).finish,
            final(self).duration_seconds == old(self).duration_seconds,
            final(self).status == old(self).status,
            final(self).err == old(self).err,
            final(self).err_total == old(self).err_total,
    {
        self.ref_errs.insert(target_id, err);
    }

    /// Finishes the run: `Complete` when the error map is empty, else
    /// `CompleteWithErrors`; the error total is the number of targets
    /// that recorded an error.
    pub fn complete(&mut self, finish_time: u64)
        requires
            old(self).wf(),
            old(self).start <= finish_time,
        ensures
            final(self).wf(),
            final(self).status == (if old(self).ref_errs@.len() == 0 {
                TaskStatus::Complete
            } else {
                TaskStatus::CompleteWithErrors
            }),
            final(self).err_total == old(self).ref_errs@.len(),
            final(self).finish == finish_time,
            final(self).duration_seconds == finish_time - old(self).start,
            final(self).err == old(self).err,
            final(self).ref_errs@ == old(self).ref_errs@,
            final(self).id == old(self).id,
            final(self).kind == old(self).kind,
            final(self).count == old(self).count,
            final(self).timestamp == old(self).timestamp,
            final(self).start == old(self).start,
    {
        self.status = if self.ref_errs.is_empty() {
            TaskStatus::Complete
        } else {
            TaskStatus::CompleteWithErrors
        };
        self.err_total = self.ref_errs.len() as u64;
        self.finish = finish_time;
        self.duration_seconds = finish_time - self.start;
    }

    /// Fails the run with an unrecoverable error.
    pub fn fail(&mut self, msg: String, finish_time: u64)
        requires
            old(self).wf(),
            old(self).start <= finish_time,
        ensures
            final(self).wf(),
            final(self).status == TaskStatus::Failed,
            final(self).err matches Some(m) && m@ == msg@,
            final(self).finish == finish_time,
            final(self).duration_seconds == finish_time - old(self).start,
            final(self).ref_errs@ == old(self).ref_errs@,
            final(self).id == old(self).id,
            final(self).kind == old(self).kind,
            final(self).count == old(self).count,
            final(self).timestamp == old(self).timestamp,
            final(self).start == old(self).start,
            final(self).err_total == old(self).err_total,
    {
        self.status = TaskStatus::Failed;
        self.err = Some(msg);
        self.finish = finish_time;
        self.duration_seconds = finish_time - self.start;
    }

    /// The current clock reading, for stamping start and finish times.
    pub fn now() -> u64 {
        unix_now()
    }
}

/// The mathematical content of a task reference.
pub ghost struct TaskRefV {
    /// The identifier of the task batch.
    pub task_id: Seq<char>,
    /// The identifier of the target.
    pub target_id: Seq<char>,
    /// The forward-only iteration counter for the target.
    pub iteration: u32,
    /// The error recorded for this target, if any.
    pub err: Option<Seq<char>>,
}

/// A reference correlating a task to one processed target.
#[derive(Debug)]
pub struct TaskRef {
    /// The identifier of the task batch.
    pub task_id: String,
    /// The identifier of the target.
    pub target_id: String,
    /// The forward-only iteration counter for the target.
    pub iteration: u32,
    /// The error recorded for this target, if any.
    pub err: Option<String>,
}

impl View for TaskRef {
    type V = TaskRefV;

    open spec fn view(&self) -> TaskRefV {
        TaskRefV {
            task_id: self.task_id@,
            target_id: self.target_id@,
            iteration: self.iteration,
            err: (match self.err {
                None => None,
                Some(e) => Some(e@),
            }),
        }
    }
}

impl Clone for TaskRef {
    fn clone(&self) -> (res: Self)
        ensures
            res == *self,
    {
        TaskRef {
            task_id: self.task_id.clone(),
            target_id: self.target_id.clone(),
            iteration: self.iteration,
            err: match &self.err {
                None => None,
                Some(e) => Some(e.clone()),
            },
        }
    }
}

/// Copies a vector of task references.
pub fn clone_task_refs(v: &Vec<TaskRef>) -> (r: Vec<TaskRef>)
    ensures
        r@ == v@,
{
    let mut r: Vec<TaskRef> = Vec::new();
    let n = v.len();
    for i in 0..n
        invariant
            n == v@.len(),
            r@ =~= v@.take(i as int),
    {
        r.push(v[i].clone());
        proof {
            assert(r@ =~= v@.take(i + 1));
        }
    }
    proof {
        assert(v@.take(n as int) =~= v@);
    }
    r
}

impl TaskRef {
    /// Creates the reference for one (task, target) pair.
    pub fn new(task: &Task, target_id: String, iteration: u32) -> (r: Self)
        ensures
            r.task_id@ == task.id@,
            r.target_id@ == target_id@,
            r.iteration == iteration,
            r.err is None,
    {
        Self { task_id: task.id.clone(), target_id, iteration, err: None }
    }
}

} // verus!
