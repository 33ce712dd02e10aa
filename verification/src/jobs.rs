//! Async jobs: the pending/running/completed/failed lifecycle of a request
//! answered out of band.

use vstd::prelude::*;

use crate::errors::GatewayError;
use crate::kv::{
    has_key, key_idx, kv_find, lemma_key_idx, lemma_key_idx_push, lemma_key_idx_same_keys,
    lemma_unique_push, unique_keys,
};
use crate::strutil::str_eq;

verus! {

#[derive(Clone, Copy, Debug, PartialEq, Eq, Structural)]
pub enum JobStatus {
    Pending,
    Running,
    Completed,
    Failed,
}

impl JobStatus {
    pub open spec fn spec_as_str(self) -> Seq<char> {
        match self {
            JobStatus::Pending => "pending"@,
            JobStatus::Running => "running"@,
            JobStatus::Completed => "completed"@,
            JobStatus::Failed => "failed"@,
        }
    }

    pub fn as_str(&self) -> (r: String)
        ensures
            r@ == self.spec_as_str(),
    {
        match self {
            JobStatus::Pending => String::from_str("pending"),
            JobStatus::Running => String::from_str("running"),
            JobStatus::Completed => String::from_str("completed"),
            JobStatus::Failed => String::from_str("failed"),
        }
    }

    /// The status a stored text stands for; anything unknown reads as
    /// Pending.
    pub open spec fn spec_from_str(s: Seq<char>) -> JobStatus {
        if s == "running"@ {
            JobStatus::Running
        } else if s == "completed"@ {
            JobStatus::Completed
        } else if s == "failed"@ {
            JobStatus::Failed
        } else {
            JobStatus::Pending
        }
    }

    pub fn from_str(s: &str) -> (r: JobStatus)
        ensures
            r == JobStatus::spec_from_str(s@),
    {
        if str_eq(s, "running") {
            JobStatus::Running
        } else if str_eq(s, "completed") {
            JobStatus::Completed
        } else if str_eq(s, "failed") {
            JobStatus::Failed
        } else {
            JobStatus::Pending
        }
    }
}

/// One async job. `payload`, `result` and `error` are raw JSON or message
/// text; times are seconds since the epoch.
#[derive(Debug)]
pub struct AsyncJob {
    pub job_id: String,
    pub user_id: String,
    pub status: JobStatus,
    pub payload: Option<String>,
    pub result: Option<String>,
    pub error: Option<String>,
    pub created_at: i64,
    pub updated_at: i64,
}

/// The job store, keyed by job id.
pub struct JobStore {
    pub entries: Vec<(String, AsyncJob)>,
}

impl JobStore {
    pub open spec fn wf(self) -> bool {
        unique_keys(self.entries@)
    }

    pub open spec fn spec_get(self, id: Seq<char>) -> Option<AsyncJob> {
        if has_key(self.entries@, id) {
            Some(self.entries@[key_idx(self.entries@, id)].1)
        } else {
            None
        }
    }

    pub fn new() -> (r: Self)
        ensures
            r.wf(),
            forall|id: Seq<char>| r.spec_get(id) is None,
    {
        JobStore { entries: Vec::new() }
    }

    /// Record a fresh job; a job id already present is refused untouched.
    pub fn create_job(&mut self, job: AsyncJob) -> (r: Result<(), GatewayError>)
        requires
            old(self).wf(),
        ensures
            final(self).wf(),
            match old(self).spec_get(job.job_id@) {
                Some(_) => r == Err::<(), GatewayError>(GatewayError::InternalError)
                    && *final(self) == *old(self),
                None => {
                    &&& r == Ok::<(), GatewayError>(())
                    &&& final(self).spec_get(job.job_id@) == Some(job)
                    &&& forall|id: Seq<char>|
                        id != job.job_id@ ==> final(self).spec_get(id) == old(self).spec_get(id)
                },
            },
    {
        let key = job.job_id.clone();
        let found = kv_find(&self.entries, &key);
        let ghost s0 = self.entries@;
        match found {
            Some(_) => Err(GatewayError::InternalError),
            None => {
                self.entries.push((key, job));
                proof {
                    let s1 = self.entries@;
                    lemma_unique_push(s0, s1[s0.len() as int]);
                    lemma_key_idx_push(s0, s1[s0.len() as int], s1[s0.len() as int].0@);
                    assert forall|n: Seq<char>|
                        n != s1[s0.len() as int].0@ implies self.spec_get(n) == old(
                        self,
                    ).spec_get(n) by {
                        lemma_key_idx_push(s0, s1[s0.len() as int], n);
                        lemma_key_idx(s0, n);
                        if key_idx(s0, n) >= 0 {
                            assert(s1[key_idx(s0, n)] == s0[key_idx(s0, n)]);
                        }
                    }
                }
                Ok(())
            },
        }
    }

    /// Move a job to a new status with its result or error, stamping the
    /// update time. A missing id changes nothing, as a store update of no
    /// rows would.
    pub fn update_status(
        &mut self,
        job_id: &String,
        status: JobStatus,
        result: Option<String>,
        error: Option<String>,
        now: i64,
    )
        requires
            old(self).wf(),
        ensures
            final(self).wf(),
            match old(self).spec_get(job_id@) {
                Some(j) => {
                    &&& final(self).spec_get(job_id@) matches Some(u)
                    &&& {
                        let u = final(self).spec_get(job_id@)->0;
                        &&& u.job_id == j.job_id
                        &&& u.user_id == j.user_id
                        &&& u.payload == j.payload
                        &&& u.created_at == j.created_at
                        &&& u.status == status
                        &&& u.result == result
                        &&& u.error == error
                        &&& u.updated_at == now
                    }
                },
                None => final(self).spec_get(job_id@) is None,
            },
            forall|id: Seq<char>|
                id != job_id@ ==> final(self).spec_get(id) == old(self).spec_get(id),
    {
        let found = kv_find(&self.entries, job_id);
        let ghost s0 = self.entries@;
        match found {
            None => {},
            Some(i) => {
                let (key, j) = self.entries.remove(i);
                let updated = AsyncJob {
                    status,
                    result,
                    error,
                    updated_at: now,
                    ..j
                };
                self.entries.insert(i, (key, updated));
                proof {
                    let s1 = self.entries@;
                    assert(s1 =~= s0.update(i as int, s1[i as int]));
                    assert(forall|j2: int| 0 <= j2 < s0.len() ==> s1[j2].0@ == s0[j2].0@);
                    assert forall|n: Seq<char>| key_idx(s1, n) == key_idx(s0, n) by {
                        lemma_key_idx_same_keys(s1, s0, n);
                    }
                    assert forall|n: Seq<char>|
                        n != s1[i as int].0@ implies self.spec_get(n) == old(self).spec_get(n) by {
                        lemma_key_idx(s0, n);
                    }
                }
            },
        }
    }

    /// The job under an id, as stored.
    pub fn find_by_id(&self, job_id: &String) -> (r: Option<&AsyncJob>)
        ensures
            match self.spec_get(job_id@) {
                Some(j) => r matches Some(out) && *out == j,
                None => r is None,
            },
    {
        let found = kv_find(&self.entries, job_id);
        match found {
            Some(i) => Some(&self.entries[i].1),
            None => None,
        }
    }

    /// The indices of one principal's jobs, in insertion order.
    pub fn list_by_user(&self, user_id: &String) -> (r: Vec<usize>)
        ensures
            forall|k: int|
                0 <= k < r@.len() ==> r@[k] < self.entries@.len() && self.entries@[r@[k] as int].1.user_id@
                    == user_id@,
            forall|k1: int, k2: int| 0 <= k1 < k2 < r@.len() ==> r@[k1] < r@[k2],
            forall|j: int|
                0 <= j < self.entries@.len() && self.entries@[j].1.user_id@ == user_id@
                    ==> r@.contains(j as usize),
    {
        let n = self.entries.len();
        let mut r: Vec<usize> = Vec::new();
        let mut i: usize = 0;
        while i < n
            invariant
                i <= n,
                n == self.entries@.len(),
                forall|k: int|
                    0 <= k < r@.len() ==> r@[k] < i && self.entries@[r@[k] as int].1.user_id@
                        == user_id@,
                forall|k1: int, k2: int| 0 <= k1 < k2 < r@.len() ==> r@[k1] < r@[k2],
                forall|j: int|
                    0 <= j < i && self.entries@[j].1.user_id@ == user_id@ ==> r@.contains(
                        j as usize,
                    ),
            decreases n - i,
        {
            if self.entries[i].1.user_id == *user_id {
                let ghost r0 = r@;
                r.push(i);
                proof {
                    assert(r@[r0.len() as int] == i);
                    assert forall|j: int|
                        0 <= j < i + 1 && self.entries@[j].1.user_id@ == user_id@ implies r@.contains(
                        j as usize,
                    ) by {
                        if j < i {
                            let w = choose|w: int| 0 <= w < r0.len() && r0[w] == j as usize;
                            assert(r@[w] == j as usize);
                        }
                    }
                }
            }
            i += 1;
        }
        r
    }
}

/// A job may be read only by the principal that submitted it.
pub fn job_access(job: &AsyncJob, user_id: &String) -> (r: Result<(), GatewayError>)
    ensures
        job.user_id@ == user_id@ ==> r == Ok::<(), GatewayError>(()),
        job.user_id@ != user_id@ ==> r == Err::<(), GatewayError>(GatewayError::PermissionDenied),
{
    if job.user_id == *user_id {
        Ok(())
    } else {
        Err(GatewayError::PermissionDenied)
    }
}

} // verus!
