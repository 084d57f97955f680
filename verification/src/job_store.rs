//! Bookkeeping of background jobs: their status, progress and age.
//!
//! Times are nanoseconds on a monotonic clock, read by the caller.
use vstd::prelude::*;
use std::collections::HashMap;
use vstd::arithmetic::power::pow;
use crate::text;
use crate::models::barcode_import::{copy_failed, copy_imported, FailedBarcode, ImportedIngredient};

verus! {

broadcast use vstd::std_specs::hash::group_hash_axioms;

/// How long a job is kept: one hour, in nanoseconds.
pub const JOB_TTL_NS: u64 = 3_600_000_000_000;

/// What a finished job produced.
pub enum JobResult {
    /// A recipe, and what the outside services it used cost, in millionths
    /// of a US dollar (the cost rounded to six decimal places).
    RecipeResult { markdown_content: String, cost_micro_usd: u64 },
    ImportResult { imported: Vec<ImportedIngredient>, failed: Vec<FailedBarcode> },
}

/// Where a job stands.
pub enum JobStatus {
    Pending,
    Processing,
    Completed(JobResult),
    Failed(String),
    /// Terminal state — set when any upstream API answers with a rate limit.
    RateLimited { message: String, retry_after_minutes: u32 },
}

/// A background job.
pub struct Job {
    pub job_id: u128,
    pub user_id: i32,
    pub status: JobStatus,
    /// When the job was created.
    pub created_at: u64,
    /// Completion percentage (0–100).
    pub progress: u8,
}

/// What a job result holds.
pub enum JobResultView {
    RecipeResult { markdown_content: Seq<char>, cost_micro_usd: u64 },
    ImportResult { imported: Seq<ImportedIngredient>, failed: Seq<FailedBarcode> },
}

/// What a job status holds.
pub enum JobStatusView {
    Pending,
    Processing,
    Completed(JobResultView),
    Failed(Seq<char>),
    RateLimited { message: Seq<char>, retry_after_minutes: u32 },
}

/// What a job holds.
pub struct JobView {
    pub job_id: u128,
    pub user_id: i32,
    pub status: JobStatusView,
    pub created_at: u64,
    pub progress: u8,
}

impl View for JobResult {
    type V = JobResultView;

    open spec fn view(&self) -> JobResultView {
        match self {
            JobResult::RecipeResult { markdown_content, cost_micro_usd } => JobResultView::RecipeResult {
                markdown_content: markdown_content@,
                cost_micro_usd: *cost_micro_usd,
            },
            JobResult::ImportResult { imported, failed } => JobResultView::ImportResult {
                imported: imported@,
                failed: failed@,
            },
        }
    }
}

impl View for JobStatus {
    type V = JobStatusView;

    open spec fn view(&self) -> JobStatusView {
        match self {
            JobStatus::Pending => JobStatusView::Pending,
            JobStatus::Processing => JobStatusView::Processing,
            JobStatus::Completed(r) => JobStatusView::Completed(r@),
            JobStatus::Failed(m) => JobStatusView::Failed(m@),
            JobStatus::RateLimited { message, retry_after_minutes } => JobStatusView::RateLimited {
                message: message@,
                retry_after_minutes: *retry_after_minutes,
            },
        }
    }
}

impl View for Job {
    type V = JobView;

    open spec fn view(&self) -> JobView {
        JobView {
            job_id: self.job_id,
            user_id: self.user_id,
            status: self.status@,
            created_at: self.created_at,
            progress: self.progress,
        }
    }
}

impl JobStatusView {
    /// The name of the status, as status reports give it.
    pub open spec fn name(self) -> Seq<char> {
        match self {
            JobStatusView::Pending => "pending"@,
            JobStatusView::Processing => "processing"@,
            JobStatusView::Completed(_) => "completed"@,
            JobStatusView::Failed(_) => "failed"@,
            JobStatusView::RateLimited { .. } => "rate_limited"@,
        }
    }

    /// Pending and processing jobs are active.
    pub open spec fn is_active(self) -> bool {
        self is Pending || self is Processing
    }
}

impl JobResult {
    pub fn duplicate(&self) -> (r: Self)
        ensures
            r@ == self@,
    {
        match self {
            JobResult::RecipeResult { markdown_content, cost_micro_usd } => JobResult::RecipeResult {
                markdown_content: markdown_content.clone(),
                cost_micro_usd: *cost_micro_usd,
            },
            JobResult::ImportResult { imported, failed } => JobResult::ImportResult {
                imported: copy_imported(imported),
                failed: copy_failed(failed),
            },
        }
    }
}

impl JobStatus {
    /// The name of the status.
    pub open spec fn spec_name(&self) -> Seq<char> {
        match self {
            JobStatus::Pending => "pending"@,
            JobStatus::Processing => "processing"@,
            JobStatus::Completed(_) => "completed"@,
            JobStatus::Failed(_) => "failed"@,
            JobStatus::RateLimited { .. } => "rate_limited"@,
        }
    }

    /// The name of the status, as status reports give it.
    pub fn as_str(&self) -> (r: &'static str)
        ensures
            r@ == self.spec_name(),
    {
        match self {
            JobStatus::Pending => "pending",
            JobStatus::Processing => "processing",
            JobStatus::Completed(_) => "completed",
            JobStatus::Failed(_) => "failed",
            JobStatus::RateLimited { .. } => "rate_limited",
        }
    }

    /// Whether the job is still pending or processing.
    pub fn is_active(&self) -> (r: bool)
        ensures
            r == self@.is_active(),
    {
        match self {
            JobStatus::Pending | JobStatus::Processing => true,
            _ => false,
        }
    }

    pub fn duplicate(&self) -> (r: Self)
        ensures
            r@ == self@,
    {
        match self {
            JobStatus::Pending => JobStatus::Pending,
            JobStatus::Processing => JobStatus::Processing,
            JobStatus::Completed(res) => JobStatus::Completed(res.duplicate()),
            JobStatus::Failed(m) => JobStatus::Failed(m.clone()),
            JobStatus::RateLimited { message, retry_after_minutes } => JobStatus::RateLimited {
                message: message.clone(),
                retry_after_minutes: *retry_after_minutes,
            },
        }
    }
}

impl Job {
    pub fn duplicate(&self) -> (r: Self)
        ensures
            r@ == self@,
    {
        Job {
            job_id: self.job_id,
            user_id: self.user_id,
            status: self.status.duplicate(),
            created_at: self.created_at,
            progress: self.progress,
        }
    }
}

/// Calls `Uuid::new_v4` and takes its bits: a fresh random id. Of its value
/// only what the crate fixes is claimed: the version nibble is 4 and the
/// variant bits are `10` (`new_v4` masks them in).
#[verifier::external_body]
pub(crate) fn new_uuid() -> (r: u128)
    ensures
        is_v4(r),
{
    uuid::Uuid::new_v4().as_u128()
}

/// A version 4 UUID of the RFC 4122 variant: the version nibble is 4 and
/// the variant bits are `10`.
pub open spec fn is_v4(id: u128) -> bool {
    id & 0xF000_C000_0000_0000_0000u128 == 0x4000_8000_0000_0000_0000u128
}

/// The hyphenated lowercase text of a UUID given by its 128 bits, most
/// significant first: `8-4-4-4-12` hexadecimal digits.
pub open spec fn uuid_hyphenated(id: u128) -> Seq<char> {
    let h = Seq::new(
        32,
        |k: int| text::hex_digit_lower((id as int / pow(16, (31 - k) as nat)) % 16),
    );
    h.subrange(0, 8) + seq!['-'] + h.subrange(8, 12) + seq!['-'] + h.subrange(12, 16) + seq!['-']
        + h.subrange(16, 20) + seq!['-'] + h.subrange(20, 32)
}

/// Calls `Uuid::to_string` on the UUID with these bits, whose `Display` is
/// documented as the hyphenated lowercase form.
#[verifier::external_body]
pub(crate) fn uuid_text(id: u128) -> (r: String)
    ensures
        r@ == uuid_hyphenated(id),
{
    uuid::Uuid::from_u128(id).to_string()
}

/// The jobs of all users, by id.
pub struct JobStore {
    inner: HashMap<u128, Job>,
}

impl View for JobStore {
    type V = Map<u128, JobView>;

    closed spec fn view(&self) -> Map<u128, JobView> {
        self.inner@.map_values(|j: Job| j@)
    }
}

/// A job created at `created_at` has outlived its time at `now`.
pub open spec fn outlived(created_at: u64, now: u64) -> bool {
    now >= created_at && now - created_at >= JOB_TTL_NS
}

/// Whether the user has a job that is pending or processing.
pub open spec fn has_active(jobs: Map<u128, JobView>, user_id: i32) -> bool {
    exists|id: u128|
        jobs.contains_key(id) && #[trigger] jobs[id].user_id == user_id && jobs[id].status.is_active()
}

/// A user has an active job exactly when one of their jobs is pending or
/// processing: completed, failed and rate-limited jobs never count.
pub proof fn law_active_means_pending_or_processing(jobs: Map<u128, JobView>, user_id: i32)
    ensures
        has_active(jobs, user_id) <==> exists|id: u128|
            jobs.contains_key(id) && #[trigger] jobs[id].user_id == user_id && (jobs[id].status is Pending
                || jobs[id].status is Processing),
{
}

/// Once a user's only job finishes (completed, failed or rate limited), the
/// user has no active job and may start another.
pub proof fn law_finished_only_job_is_not_active(
    jobs: Map<u128, JobView>,
    id: u128,
    user_id: i32,
    status: JobStatusView,
)
    requires
        jobs.contains_key(id),
        jobs[id].user_id == user_id,
        forall|o: u128| jobs.contains_key(o) && o != id ==> #[trigger] jobs[o].user_id != user_id,
        status is Completed || status is Failed || status is RateLimited,
    ensures
        !has_active(with_status(jobs, id, status), user_id),
{
    let m = with_status(jobs, id, status);
    assert forall|o: u128| m.contains_key(o) && #[trigger] m[o].user_id == user_id implies !m[o].status.is_active() by {
        if o != id {
            assert(m[o] == jobs[o]);
        }
    }
}

/// The jobs after a pending job `id` of `user_id` was created at `now`.
pub open spec fn created(jobs: Map<u128, JobView>, id: u128, user_id: i32, now: u64) -> Map<
    u128,
    JobView,
> {
    jobs.insert(
        id,
        JobView { job_id: id, user_id, status: JobStatusView::Pending, created_at: now, progress: 0 },
    )
}

/// The jobs after the progress of job `id` was set to `progress`, capped at
/// 100; unchanged when there is no such job.
pub open spec fn with_progress(jobs: Map<u128, JobView>, id: u128, progress: u8) -> Map<
    u128,
    JobView,
> {
    if jobs.contains_key(id) {
        jobs.insert(
            id,
            JobView { progress: if progress < 100 {
                progress
            } else {
                100
            }, ..jobs[id] },
        )
    } else {
        jobs
    }
}

/// The jobs after the status of job `id` was replaced; unchanged when there
/// is no such job.
pub open spec fn with_status(jobs: Map<u128, JobView>, id: u128, status: JobStatusView) -> Map<
    u128,
    JobView,
> {
    if jobs.contains_key(id) {
        jobs.insert(id, JobView { status, ..jobs[id] })
    } else {
        jobs
    }
}

/// The jobs that have not outlived their time at `now`.
pub open spec fn cleaned(jobs: Map<u128, JobView>, now: u64) -> Map<u128, JobView> {
    jobs.restrict(jobs.dom().filter(|id: u128| !outlived(jobs[id].created_at, now)))
}

impl JobStore {
    pub fn new() -> (r: Self)
        ensures
            r@ == Map::<u128, JobView>::empty(),
    {
        let r = JobStore { inner: HashMap::new() };
        assert(r@ =~= Map::<u128, JobView>::empty());
        r
    }

    /// Whether the user has a job that is pending or processing.
    pub fn has_active_job(&self, user_id: i32) -> (r: bool)
        ensures
            r == has_active(self@, user_id),
    {
        let ghost m = self.inner@;
        for job in it: self.inner.values()
            invariant
                m == self.inner@,
                it.seq().unref().to_set() == m.values(),
                forall|k: int|
                    0 <= k < it.index() ==> !(#[trigger] it.seq()[k].user_id == user_id
                        && it.seq()[k].status@.is_active()),
            ensures
                forall|j: Job|
                    #[trigger] m.values().contains(j) ==> !(j.user_id == user_id
                        && j.status@.is_active()),
        {
            if job.user_id == user_id && job.status.is_active() {
                proof {
                    let j = *job;
                    assert(it.seq().unref()[it.index() as int] == j);
                    assert(it.seq().unref().to_set().contains(j));
                    assert(m.values().contains(j));
                    let id = choose|id: u128| m.contains_key(id) && m[id] == j;
                    assert(self@.contains_key(id) && self@[id] == j@);
                    assert(self@[id].user_id == user_id && self@[id].status.is_active());
                }
                return true;
            }
        }
        proof {
            assert forall|id: u128|
                self@.contains_key(id) implies !(#[trigger] self@[id].user_id == user_id
                && self@[id].status.is_active()) by {
                let j = m[id];
                assert(m.values().contains(j));
            }
        }
        false
    }

    /// Creates a pending job for the user, created now, under a fresh random
    /// version 4 UUID, and returns its id.
    pub fn create_job(&mut self, user_id: i32, now: u64) -> (r: u128)
        ensures
            is_v4(r),
            final(self)@ == created(old(self)@, r, user_id, now),
    {
        let job_id = new_uuid();
        let job = Job { job_id, user_id, status: JobStatus::Pending, created_at: now, progress: 0 };
        self.inner.insert(job_id, job);
        proof {
            assert(self@ =~= old(self)@.insert(job_id, job@));
        }
        job_id
    }

    /// Sets the progress of a job, at most 100. Does nothing for an unknown id.
    pub fn set_progress(&mut self, job_id: u128, progress: u8)
        ensures
            final(self)@ == with_progress(old(self)@, job_id, progress),
    {
        let updated = match self.inner.get(&job_id) {
            Some(job) => {
                let mut j = job.duplicate();
                j.progress = if progress < 100 {
                    progress
                } else {
                    100
                };
                Some(j)
            },
            None => None,
        };
        match updated {
            Some(j) => {
                let ghost jv = j@;
                self.inner.insert(job_id, j);
                proof {
                    assert(self@ =~= old(self)@.insert(job_id, jv));
                }
            },
            None => {},
        }
    }

    /// Replaces the status of a job. Does nothing for an unknown id.
    pub fn set_status(&mut self, job_id: u128, status: JobStatus)
        ensures
            final(self)@ == with_status(old(self)@, job_id, status@),
    {
        let updated = match self.inner.get(&job_id) {
            Some(job) => Some(
                Job {
                    job_id: job.job_id,
                    user_id: job.user_id,
                    status,
                    created_at: job.created_at,
                    progress: job.progress,
                },
            ),
            None => None,
        };
        match updated {
            Some(j) => {
                let ghost jv = j@;
                self.inner.insert(job_id, j);
                proof {
                    assert(self@ =~= old(self)@.insert(job_id, jv));
                }
            },
            None => {},
        }
    }

    /// A snapshot of the job, if there is one with this id.
    pub fn get_job(&self, job_id: u128) -> (r: Option<Job>)
        ensures
            match r {
                Some(j) => self@.contains_key(job_id) && j@ == self@[job_id],
                None => !self@.contains_key(job_id),
            },
    {
        match self.inner.get(&job_id) {
            Some(job) => Some(job.duplicate()),
            None => None,
        }
    }

    /// Removes every job that has outlived its time at `now`.
    pub fn cleanup_old_jobs(&mut self, now: u64)
        ensures
            final(self)@ == cleaned(old(self)@, now),
    {
        let ghost m0 = self.inner@;
        let mut expired: Vec<u128> = Vec::new();
        for key in it: self.inner.keys()
            invariant
                m0 == self.inner@,
                it.seq().unref().to_set() == m0.dom(),
                forall|i: int|
                    0 <= i < expired@.len() ==> m0.contains_key(#[trigger] expired@[i]) && outlived(
                        m0[expired@[i]].created_at,
                        now,
                    ),
                forall|k: int|
                    0 <= k < it.index() && outlived(m0[*it.seq()[k]].created_at, now)
                        ==> expired@.contains(*#[trigger] it.seq()[k]),
            ensures
                forall|i: int|
                    0 <= i < expired@.len() ==> m0.contains_key(#[trigger] expired@[i]) && outlived(
                        m0[expired@[i]].created_at,
                        now,
                    ),
                forall|id: u128|
                    #[trigger] m0.contains_key(id) && outlived(m0[id].created_at, now)
                        ==> expired@.contains(id),
        {
            let id = *key;
            proof {
                assert(it.seq().unref()[it.index() as int] == id);
                assert(it.seq().unref().to_set().contains(id));
            }
            let created = match self.inner.get(&id) {
                Some(job) => job.created_at,
                None => now,
            };
            let ghost old_expired = expired@;
            if now >= created && now - created >= JOB_TTL_NS {
                expired.push(id);
            }
            proof {
                assert forall|i: int| 0 <= i < expired@.len() implies m0.contains_key(
                    #[trigger] expired@[i],
                ) && outlived(m0[expired@[i]].created_at, now) by {
                    if i < old_expired.len() {
                        assert(expired@[i] == old_expired[i]);
                    }
                }
                assert forall|k: int|
                    0 <= k < it.index() + 1 && outlived(m0[*it.seq()[k]].created_at, now) implies expired@.contains(
                    *#[trigger] it.seq()[k]) by {
                    if k < it.index() {
                        let x = *it.seq()[k];
                        let j = choose|j: int| 0 <= j < old_expired.len() && old_expired[j] == x;
                        assert(expired@[j] == x);
                    } else {
                        assert(expired@[expired@.len() - 1] == id);
                    }
                }
            }
        }
        let ghost keep = m0.dom().filter(|id: u128| !outlived(m0[id].created_at, now));
        let mut i: usize = 0;
        while i < expired.len()
            invariant
                0 <= i <= expired@.len(),
                forall|j: int|
                    0 <= j < expired@.len() ==> m0.contains_key(#[trigger] expired@[j]) && outlived(
                        m0[expired@[j]].created_at,
                        now,
                    ),
                forall|id: u128|
                    #[trigger] m0.contains_key(id) && outlived(m0[id].created_at, now)
                        ==> expired@.contains(id),
                forall|x: u128|
                    #[trigger] self.inner@.contains_key(x) <==> (m0.contains_key(x) && !(exists|j: int|
                        0 <= j < i && expired@[j] == x)),
                forall|x: u128| #[trigger] self.inner@.contains_key(x) ==> self.inner@[x] == m0[x],
            decreases expired@.len() - i,
        {
            let id = expired[i];
            let ghost before = self.inner@;
            self.inner.remove(&id);
            proof {
                assert forall|x: u128| #[trigger] self.inner@.contains_key(x) <==> (m0.contains_key(x)
                    && !(exists|j: int| 0 <= j < i + 1 && expired@[j] == x)) by {
                    if x == id {
                        assert(expired@[i as int] == x);
                    } else {
                        if exists|j: int| 0 <= j < i + 1 && expired@[j] == x {
                            let j = choose|j: int| 0 <= j < i + 1 && expired@[j] == x;
                            assert(j < i);
                        }
                    }
                }
            }
            i = i + 1;
        }
        proof {
            assert(self.inner@ =~= m0.restrict(keep)) by {
                assert forall|id: u128| #[trigger] self.inner@.contains_key(id) <==> keep.contains(id) by {
                    if m0.contains_key(id) && outlived(m0[id].created_at, now) {
                        assert(expired@.contains(id));
                        let j = choose|j: int| 0 <= j < expired@.len() && expired@[j] == id;
                        assert(0 <= j < i && expired@[j] == id);
                    }
                    if exists|j: int| 0 <= j < i && expired@[j] == id {
                        let j = choose|j: int| 0 <= j < i && expired@[j] == id;
                        assert(outlived(m0[expired@[j]].created_at, now));
                    }
                }
            }
            assert(self@ =~= old(self)@.restrict(
                old(self)@.dom().filter(|id: u128| !outlived(old(self)@[id].created_at, now)),
            ));
        }
    }
}


// ---------------------------------------------------------------------------
// Laws
// ---------------------------------------------------------------------------
/// A job just created is found under its id, pending, at progress 0, and
/// makes its user's next job request wait: the user now has an active job.
pub proof fn law_created_job_is_pending(jobs: Map<u128, JobView>, id: u128, user_id: i32, now: u64)
    ensures
        created(jobs, id, user_id, now).contains_key(id),
        created(jobs, id, user_id, now)[id] == (JobView {
            job_id: id,
            user_id,
            status: JobStatusView::Pending,
            created_at: now,
            progress: 0,
        }),
        has_active(created(jobs, id, user_id, now), user_id),
{
    let m = created(jobs, id, user_id, now);
    assert(m.contains_key(id) && m[id].user_id == user_id && m[id].status.is_active());
}

/// Setting progress never shows more than 100, changes only that job's
/// progress, and leaves every other job as it was.
pub proof fn law_progress_capped(jobs: Map<u128, JobView>, id: u128, progress: u8, other: u128)
    requires
        jobs.contains_key(id),
        other != id,
    ensures
        with_progress(jobs, id, progress)[id].progress <= 100,
        with_progress(jobs, id, progress)[id].progress == (if progress < 100 {
            progress
        } else {
            100
        }),
        with_progress(jobs, id, progress)[id].status == jobs[id].status,
        with_progress(jobs, id, progress)[id].user_id == jobs[id].user_id,
        with_progress(jobs, id, progress).dom() == jobs.dom(),
        jobs.contains_key(other) ==> with_progress(jobs, id, progress)[other] == jobs[other],
{
    assert(with_progress(jobs, id, progress).dom() =~= jobs.dom());
}

/// A status set is the status read back, the job keeps its owner, age and
/// progress, and no other job changes.
pub proof fn law_status_read_back(jobs: Map<u128, JobView>, id: u128, status: JobStatusView, other: u128)
    requires
        jobs.contains_key(id),
        other != id,
    ensures
        with_status(jobs, id, status)[id].status == status,
        with_status(jobs, id, status)[id].user_id == jobs[id].user_id,
        with_status(jobs, id, status)[id].created_at == jobs[id].created_at,
        with_status(jobs, id, status)[id].progress == jobs[id].progress,
        with_status(jobs, id, status).dom() == jobs.dom(),
        jobs.contains_key(other) ==> with_status(jobs, id, status)[other] == jobs[other],
{
    assert(with_status(jobs, id, status).dom() =~= jobs.dom());
}

/// Updates of an unknown job change nothing.
pub proof fn law_unknown_job_untouched(jobs: Map<u128, JobView>, id: u128, progress: u8, status: JobStatusView)
    requires
        !jobs.contains_key(id),
    ensures
        with_progress(jobs, id, progress) == jobs,
        with_status(jobs, id, status) == jobs,
{
}

/// Cleaning up keeps exactly the jobs that have not outlived their time,
/// unchanged.
pub proof fn law_cleanup_keeps_young_jobs(jobs: Map<u128, JobView>, now: u64, id: u128)
    ensures
        cleaned(jobs, now).contains_key(id) <==> (jobs.contains_key(id) && !outlived(
            jobs[id].created_at,
            now,
        )),
        cleaned(jobs, now).contains_key(id) ==> cleaned(jobs, now)[id] == jobs[id],
{
}

} // verus!
