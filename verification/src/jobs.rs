//! The durable job queue over the relational store: enqueue, the atomic
//! claim, terminal updates, and crash recovery.  The store itself is
//! modelled as the sequence of job rows the database holds; the database's
//! row locking serializes claims, so the model's sequential operations are
//! exactly the claim protocol's observable behaviour.

use vstd::prelude::*;

use crate::settings::VariantConfig;

verus! {

/// Status of a job row.
#[derive(PartialEq, Eq, Structural, Clone, Copy, Debug)]
pub enum JobStatus {
    Pending,
    Processing,
    Completed,
    Failed,
}

/// The tagged payload of a job.  The first shape is the legacy one,
/// recognised by the presence of its `variants` key; the two tagged shapes
/// carry an explicit `type` field on the wire.  A failed job's payload is
/// rewritten once into the failure envelope.
#[derive(Debug)]
pub enum JobPayload {
    /// Process a newly uploaded file with this variant snapshot.
    ProcessImage { variants: Vec<(String, VariantConfig)> },
    /// Reprocess a single existing file under this configuration snapshot.
    SyncFileVariants { variants_config: Vec<(String, VariantConfig)> },
    /// Fan out over a project, producing one `SyncFileVariants` per file.
    SyncProjectVariants { project_id: String },
    /// The terminal payload of a failed job: the error and what the payload
    /// was before the failure.
    FailureEnvelope { error: String, original: Box<JobPayload> },
}

/// One job row.
pub struct JobRecord {
    pub id: String,
    pub file_id: String,
    pub status: JobStatus,
    pub payload: JobPayload,
    pub created_at: i64,
    pub updated_at: i64,
}

/// The jobs table.
pub struct JobStore {
    pub jobs: Vec<JobRecord>,
}

/// Job identifiers are pairwise distinct, as the primary key makes them.
pub open spec fn distinct_ids(s: Seq<JobRecord>) -> bool {
    forall|i: int, j: int| 0 <= i < j < s.len() ==> s[i].id@ != s[j].id@
}

/// A status change a job row may undergo in steady state: stay, be claimed,
/// or reach a terminal state from `Processing`.  Transitions are monotonic
/// in the order pending, processing, then completed or failed.
pub open spec fn advances(a: JobStatus, b: JobStatus) -> bool {
    ||| a == b
    ||| (a is Pending && b is Processing)
    ||| (a is Processing && (b is Completed || b is Failed))
}

/// Number of rows with the given status.
pub open spec fn count_status(s: Seq<JobRecord>, st: JobStatus) -> int
    decreases s.len(),
{
    if s.len() == 0 {
        0
    } else {
        count_status(s.drop_last(), st) + if s.last().status == st {
            1int
        } else {
            0int
        }
    }
}

/// Updating one row moves the counts by exactly that row's change.
pub proof fn lemma_count_status_update(s: Seq<JobRecord>, i: int, r: JobRecord, st: JobStatus)
    requires
        0 <= i < s.len(),
    ensures
        count_status(s.update(i, r), st) == count_status(s, st) + (if r.status == st {
            1int
        } else {
            0int
        }) - (if s[i].status == st {
            1int
        } else {
            0int
        }),
    decreases s.len(),
{
    let t = s.update(i, r);
    if i == s.len() - 1 {
        assert(t.drop_last() =~= s.drop_last());
    } else {
        assert(t.drop_last() =~= s.drop_last().update(i, r));
        lemma_count_status_update(s.drop_last(), i, r, st);
    }
}

/// No row has the given status exactly when its count is zero.
pub proof fn lemma_count_status_zero(s: Seq<JobRecord>, st: JobStatus)
    ensures
        (count_status(s, st) == 0) <==> (forall|k: int| 0 <= k < s.len() ==> s[k].status != st),
        count_status(s, st) >= 0,
    decreases s.len(),
{
    if s.len() > 0 {
        lemma_count_status_zero(s.drop_last(), st);
        assert(forall|k: int| 0 <= k < s.len() - 1 ==> s[k] == s.drop_last()[k]);
    }
}

/// What one successful claim does: row `i` was pending with the earliest
/// `created_at` among pending rows (ties broken by position), and is the
/// only row changed, to `Processing` with a fresh `updated_at`.
pub open spec fn claim_step(pre: Seq<JobRecord>, i: int, post: Seq<JobRecord>, now: int) -> bool {
    &&& 0 <= i < pre.len()
    &&& pre[i].status is Pending
    &&& forall|k: int| 0 <= k < pre.len() && pre[k].status is Pending ==> pre[i].created_at <= pre[k].created_at
    &&& forall|k: int| 0 <= k < i && pre[k].status is Pending ==> pre[i].created_at < pre[k].created_at
    &&& post == pre.update(
        i,
        (JobRecord {
            status: JobStatus::Processing,
            updated_at: now as i64,
            ..pre[i]
        }),
    )
}

impl JobStore {
    /// An empty jobs table.
    pub fn new() -> (r: JobStore)
        ensures
            r.jobs@.len() == 0,
    {
        JobStore { jobs: Vec::new() }
    }

    pub fn len(&self) -> (r: usize)
        ensures
            r == self.jobs@.len(),
    {
        self.jobs.len()
    }

    pub fn get(&self, i: usize) -> (r: &JobRecord)
        requires
            i < self.jobs@.len(),
        ensures
            *r == self.jobs@[i as int],
    {
        &self.jobs[i]
    }

    /// Inserts a fresh row with `status = pending` and both timestamps set
    /// to now.
    pub fn enqueue(&mut self, id: String, file_id: String, payload: JobPayload, now: i64)
        requires
            forall|k: int| 0 <= k < old(self).jobs@.len() ==> old(self).jobs@[k].id@ != id@,
        ensures
            final(self).jobs@ == old(self).jobs@.push(
                (JobRecord {
                    id,
                    file_id,
                    status: JobStatus::Pending,
                    payload,
                    created_at: now,
                    updated_at: now,
                }),
            ),
            distinct_ids(old(self).jobs@) ==> distinct_ids(final(self).jobs@),
    {
        proof {
            let pushed = old(self).jobs@.push(
                (JobRecord {
                    id: id,
                    file_id: file_id,
                    status: JobStatus::Pending,
                    payload: payload,
                    created_at: now,
                    updated_at: now,
                }),
            );
            if distinct_ids(old(self).jobs@) {
                assert forall|x: int, y: int| 0 <= x < y < pushed.len() implies pushed[x].id@
                    != pushed[y].id@ by {
                    if y < pushed.len() - 1 {
                        assert(pushed[x] == old(self).jobs@[x]);
                    }
                }
            }
        }
        self.jobs.push(
            JobRecord {
                id,
                file_id,
                status: JobStatus::Pending,
                payload,
                created_at: now,
                updated_at: now,
            },
        );
    }

    /// The atomic claim: selects the pending row with the earliest
    /// `created_at` (earliest position on ties), marks it `processing`,
    /// and returns its index; returns nothing when no row is pending.
    /// Together with [`advances`] this is the only way a row leaves
    /// `pending` in steady state.
    pub fn claim_next(&mut self, now: i64) -> (r: Option<usize>)
        ensures
            r is None ==> *final(self) == *old(self) && (forall|k: int|
                0 <= k < old(self).jobs@.len() ==> !(old(self).jobs@[k].status is Pending)),
            r matches Some(i) ==> claim_step(old(self).jobs@, i as int, final(self).jobs@, now as int),
            forall|k: int|
                0 <= k < old(self).jobs@.len() ==> advances(
                    old(self).jobs@[k].status,
                    final(self).jobs@[k].status,
                ),
            final(self).jobs@.len() == old(self).jobs@.len(),
    {
        let n = self.jobs.len();
        let mut best: Option<usize> = None;
        let mut i: usize = 0;
        while i < n
            invariant
                n == self.jobs@.len(),
                i <= n,
                best is None ==> forall|k: int| 0 <= k < i ==> !(self.jobs@[k].status is Pending),
                best matches Some(b) ==> b < i && self.jobs@[b as int].status is Pending && (
                forall|k: int|
                    0 <= k < i && self.jobs@[k].status is Pending ==> self.jobs@[
                        b as int
                    ].created_at <= self.jobs@[k].created_at) && (forall|k: int|
                    0 <= k < b && self.jobs@[k].status is Pending ==> self.jobs@[
                        b as int
                    ].created_at < self.jobs@[k].created_at),
            decreases n - i,
        {
            let row = &self.jobs[i];
            if matches!(row.status, JobStatus::Pending) {
                match best {
                    None => {
                        best = Some(i);
                    },
                    Some(b) => {
                        if self.jobs[i].created_at < self.jobs[b].created_at {
                            best = Some(i);
                        }
                    },
                }
            }
            i = i + 1;
        }
        match best {
            None => None,
            Some(b) => {
                let row = job_at_mut(&mut self.jobs, b);
                row.status = JobStatus::Processing;
                row.updated_at = now;
                Some(b)
            },
        }
    }

    /// Terminal update of a claimed row: `processing` becomes `completed`.
    pub fn mark_completed(&mut self, i: usize, now: i64)
        requires
            i < old(self).jobs@.len(),
            old(self).jobs@[i as int].status is Processing,
        ensures
            final(self).jobs@ == old(self).jobs@.update(
                i as int,
                (JobRecord {
                    status: JobStatus::Completed,
                    updated_at: now,
                    ..old(self).jobs@[i as int]
                }),
            ),
            forall|k: int|
                0 <= k < old(self).jobs@.len() ==> advances(
                    old(self).jobs@[k].status,
                    final(self).jobs@[k].status,
                ),
    {
        let row = job_at_mut(&mut self.jobs, i);
        row.status = JobStatus::Completed;
        row.updated_at = now;
    }

    /// Terminal update of a claimed row that failed: `processing` becomes
    /// `failed`, and the payload is rewritten — irreversibly, the one
    /// destructive payload mutation — into the failure envelope holding the
    /// error and the original payload.
    pub fn mark_failed(&mut self, i: usize, error: String, now: i64)
        requires
            i < old(self).jobs@.len(),
            old(self).jobs@[i as int].status is Processing,
        ensures
            final(self).jobs@.len() == old(self).jobs@.len(),
            forall|k: int|
                0 <= k < old(self).jobs@.len() && k != i ==> final(self).jobs@[k] == old(
                    self,
                ).jobs@[k],
            final(self).jobs@[i as int].id == old(self).jobs@[i as int].id,
            final(self).jobs@[i as int].file_id == old(self).jobs@[i as int].file_id,
            final(self).jobs@[i as int].created_at == old(self).jobs@[i as int].created_at,
            final(self).jobs@[i as int].status is Failed,
            final(self).jobs@[i as int].updated_at == now,
            final(self).jobs@[i as int].payload matches JobPayload::FailureEnvelope {
                error: e,
                original: o,
            } && e@ == error@ && o == old(self).jobs@[i as int].payload,
            forall|k: int|
                0 <= k < old(self).jobs@.len() ==> advances(
                    old(self).jobs@[k].status,
                    final(self).jobs@[k].status,
                ),
    {
        let row = job_at_mut(&mut self.jobs, i);
        let mut taken = JobPayload::SyncProjectVariants { project_id: String::new() };
        core::mem::swap(&mut row.payload, &mut taken);
        row.payload = JobPayload::FailureEnvelope { error, original: Box::new(taken) };
        row.status = JobStatus::Failed;
        row.updated_at = now;
    }

    /// Crash recovery at startup: every `processing` row — left behind by a
    /// previous run of this single-process deployment — is reset to
    /// `pending`; nothing else changes.
    pub fn recover_stuck(&mut self)
        ensures
            final(self).jobs@.len() == old(self).jobs@.len(),
            forall|k: int|
                0 <= k < old(self).jobs@.len() ==> final(self).jobs@[k] == (if old(
                    self,
                ).jobs@[k].status is Processing {
                    (JobRecord { status: JobStatus::Pending, ..old(self).jobs@[k] })
                } else {
                    old(self).jobs@[k]
                }),
    {
        let n = self.jobs.len();
        let mut i: usize = 0;
        while i < n
            invariant
                n == self.jobs@.len(),
                n == old(self).jobs@.len(),
                i <= n,
                forall|k: int|
                    0 <= k < i ==> self.jobs@[k] == (if old(self).jobs@[k].status is Processing {
                        (JobRecord { status: JobStatus::Pending, ..old(self).jobs@[k] })
                    } else {
                        old(self).jobs@[k]
                    }),
                forall|k: int| i <= k < n ==> self.jobs@[k] == old(self).jobs@[k],
            decreases n - i,
        {
            let is_processing = matches!(self.jobs[i].status, JobStatus::Processing);
            if is_processing {
                let row = job_at_mut(&mut self.jobs, i);
                row.status = JobStatus::Pending;
            }
            i = i + 1;
        }
    }
}

/// The status words as the jobs table stores them.
pub open spec fn spec_status_str(s: JobStatus) -> Seq<char> {
    match s {
        JobStatus::Pending => "pending"@,
        JobStatus::Processing => "processing"@,
        JobStatus::Completed => "completed"@,
        JobStatus::Failed => "failed"@,
    }
}

/// Renders a status as the stored word.
pub fn status_str(s: JobStatus) -> (r: &'static str)
    ensures
        r@ == spec_status_str(s),
{
    match s {
        JobStatus::Pending => "pending",
        JobStatus::Processing => "processing",
        JobStatus::Completed => "completed",
        JobStatus::Failed => "failed",
    }
}

/// Parses a stored status word; anything else is no status.
pub fn parse_status(s: &str) -> (r: Option<JobStatus>)
    ensures
        s@ == "pending"@ ==> r == Some(JobStatus::Pending),
        s@ == "processing"@ ==> r == Some(JobStatus::Processing),
        s@ == "completed"@ ==> r == Some(JobStatus::Completed),
        s@ == "failed"@ ==> r == Some(JobStatus::Failed),
        r matches Some(st) ==> s@ == spec_status_str(st),
{
    proof {
        reveal_strlit("pending");
        reveal_strlit("processing");
        reveal_strlit("completed");
        reveal_strlit("failed");
        assert("pending"@.len() == 7);
        assert("processing"@.len() == 10);
        assert("completed"@.len() == 9);
        assert("failed"@.len() == 6);
    }
    if crate::keys::str_eq(s, "pending") {
        Some(JobStatus::Pending)
    } else if crate::keys::str_eq(s, "processing") {
        Some(JobStatus::Processing)
    } else if crate::keys::str_eq(s, "completed") {
        Some(JobStatus::Completed)
    } else if crate::keys::str_eq(s, "failed") {
        Some(JobStatus::Failed)
    } else {
        None
    }
}

/// Position of a status in the lifecycle `pending`, `processing`, then a
/// terminal state.
pub open spec fn status_rank(s: JobStatus) -> int {
    match s {
        JobStatus::Pending => 0,
        JobStatus::Processing => 1,
        JobStatus::Completed => 2,
        JobStatus::Failed => 2,
    }
}

/// Every status is one of the four lifecycle states, and every steady-state
/// transition moves forward through them, one step at a time.
pub proof fn lemma_transitions_monotonic(a: JobStatus, b: JobStatus)
    requires
        advances(a, b),
    ensures
        status_rank(a) <= status_rank(b),
        a != b ==> status_rank(b) == status_rank(a) + 1,
{
}

/// A mutable borrow of one row.
fn job_at_mut(v: &mut Vec<JobRecord>, i: usize) -> (row: &mut JobRecord)
    requires
        i < old(v).len(),
    ensures
        *row == old(v)@[i as int],
        final(v)@ == old(v)@.update(i as int, *final(row)),
{
    &mut v[i]
}

impl JobStore {
    /// The claim protocol under a pool of workers, serialized by the row
    /// lock: `n` workers each attempt one claim against `m` pending rows.
    /// Exactly the smaller of `n` and `m` rows transition to `processing`,
    /// on pairwise-distinct rows, and the remaining workers observe no work.
    pub fn claim_up_to(&mut self, n: usize, now: i64) -> (r: Vec<usize>)
        ensures
            r@.len() == (if n <= count_status(old(self).jobs@, JobStatus::Pending) {
                n as int
            } else {
                count_status(old(self).jobs@, JobStatus::Pending)
            }),
            count_status(final(self).jobs@, JobStatus::Pending) == count_status(
                old(self).jobs@,
                JobStatus::Pending,
            ) - r@.len(),
            count_status(final(self).jobs@, JobStatus::Processing) == count_status(
                old(self).jobs@,
                JobStatus::Processing,
            ) + r@.len(),
            forall|a: int, b: int| 0 <= a < b < r@.len() ==> r@[a] != r@[b],
            forall|a: int|
                0 <= a < r@.len() ==> r@[a] < final(self).jobs@.len() && final(self).jobs@[
                    r@[a] as int
                ].status is Processing,
            final(self).jobs@.len() == old(self).jobs@.len(),
    {
        let ghost m = count_status(old(self).jobs@, JobStatus::Pending);
        proof {
            lemma_count_status_zero(old(self).jobs@, JobStatus::Pending);
        }
        let mut r: Vec<usize> = Vec::new();
        let mut i: usize = 0;
        while i < n
            invariant
                m == count_status(old(self).jobs@, JobStatus::Pending),
                i <= n,
                r@.len() == i,
                i <= m,
                count_status(self.jobs@, JobStatus::Pending) == m - i,
                count_status(self.jobs@, JobStatus::Processing) == count_status(
                    old(self).jobs@,
                    JobStatus::Processing,
                ) + i,
                self.jobs@.len() == old(self).jobs@.len(),
                forall|a: int, b: int| 0 <= a < b < r@.len() ==> r@[a] != r@[b],
                forall|a: int|
                    0 <= a < r@.len() ==> r@[a] < self.jobs@.len() && self.jobs@[
                        r@[a] as int
                    ].status is Processing,
            decreases n - i,
        {
            let ghost pre = self.jobs@;
            match self.claim_next(now) {
                Some(b) => {
                    proof {
                        lemma_count_status_zero(pre, JobStatus::Pending);
                        lemma_claim_counts(pre, b as int, self.jobs@, now as int);
                        assert forall|a: int|
                            0 <= a < r@.len() implies r@[a] < self.jobs@.len() && self.jobs@[
                            r@[a] as int
                        ].status is Processing by {
                            assert(advances(pre[r@[a] as int].status, self.jobs@[r@[a] as int].status));
                        }
                    }
                    r.push(b);
                },
                None => {
                    proof {
                        lemma_count_status_zero(pre, JobStatus::Pending);
                    }
                    return r;
                },
            }
            i = i + 1;
        }
        proof {
            lemma_count_status_zero(self.jobs@, JobStatus::Pending);
        }
        r
    }
}

/// A claim takes exactly one row from `pending` to `processing`: the claimed
/// row advances, every other row is untouched, and the pending count drops
/// by one while the processing count rises by one.
pub proof fn lemma_claim_counts(pre: Seq<JobRecord>, i: int, post: Seq<JobRecord>, now: int)
    requires
        claim_step(pre, i, post, now),
    ensures
        count_status(post, JobStatus::Pending) == count_status(pre, JobStatus::Pending) - 1,
        count_status(post, JobStatus::Processing) == count_status(pre, JobStatus::Processing) + 1,
        count_status(post, JobStatus::Completed) == count_status(pre, JobStatus::Completed),
        count_status(post, JobStatus::Failed) == count_status(pre, JobStatus::Failed),
{
    let r = (JobRecord { status: JobStatus::Processing, updated_at: now as i64, ..pre[i] });
    lemma_count_status_update(pre, i, r, JobStatus::Pending);
    lemma_count_status_update(pre, i, r, JobStatus::Processing);
    lemma_count_status_update(pre, i, r, JobStatus::Completed);
    lemma_count_status_update(pre, i, r, JobStatus::Failed);
}

/// Two successive claims never own the same row: the second claim picks a
/// different index, and — with distinct row identifiers — a different job.
pub proof fn lemma_claims_distinct(
    s0: Seq<JobRecord>,
    i: int,
    s1: Seq<JobRecord>,
    j: int,
    s2: Seq<JobRecord>,
    now1: int,
    now2: int,
)
    requires
        claim_step(s0, i, s1, now1),
        claim_step(s1, j, s2, now2),
    ensures
        i != j,
        distinct_ids(s0) ==> s0[i].id@ != s0[j].id@,
{
    assert(s1[i].status is Processing);
    if i == j {
        assert(s1[j].status is Pending);
        assert(false);
    }
    if distinct_ids(s0) {
        if i < j {
            assert(s0[i].id@ != s0[j].id@);
        } else {
            assert(s0[j].id@ != s0[i].id@);
        }
    }
}

} // verus!
