//! Barcode imports: what a lookup finds, what an import job reports.
use vstd::prelude::*;
use crate::job_store::{Job, JobResult, JobResultView, JobStatus, JobStatusView, JobView};

verus! {

/// Result of a single barcode lookup.
pub struct BarcodeSearchResult {
    pub name: Option<String>,
    pub photo_link: Option<String>,
}

/// A successfully recognized product from a barcode lookup.
pub struct ImportedIngredient {
    pub barcode: String,
    pub name: String,
    pub photo_link: Option<String>,
}

/// A barcode for which no product could be found or an error occurred.
pub struct FailedBarcode {
    pub barcode: String,
    pub reason: String,
}

/// The final aggregated result of a completed import job.
pub struct ImportJobResult {
    pub imported: Vec<ImportedIngredient>,
    pub failed: Vec<FailedBarcode>,
}

/// The answer to a status query about an import job.
pub struct ImportJobResponse {
    pub import_job_id: u128,
    /// One of: "pending", "processing", "completed", "failed", "rate_limited".
    pub status: String,
    /// 0–100, present only while the job is not finished (pending or
    /// processing).
    pub progress: Option<u8>,
    /// Present only when the job completed an import.
    pub result: Option<ImportJobResult>,
    /// Present only when the job was rate limited.
    pub retry_after_minutes: Option<u32>,
    /// Present when the job failed or was rate limited.
    pub error: Option<String>,
}

/// A copy of an optional string.
pub fn copy_opt_string(s: &Option<String>) -> (r: Option<String>)
    ensures
        r == *s,
{
    match s {
        Some(v) => Some(v.clone()),
        None => None,
    }
}

impl ImportedIngredient {
    pub fn duplicate(&self) -> (r: Self)
        ensures
            r == *self,
    {
        ImportedIngredient {
            barcode: self.barcode.clone(),
            name: self.name.clone(),
            photo_link: copy_opt_string(&self.photo_link),
        }
    }
}

impl FailedBarcode {
    pub fn duplicate(&self) -> (r: Self)
        ensures
            r == *self,
    {
        FailedBarcode { barcode: self.barcode.clone(), reason: self.reason.clone() }
    }
}

/// A copy of a list of imported ingredients.
pub fn copy_imported(v: &Vec<ImportedIngredient>) -> (r: Vec<ImportedIngredient>)
    ensures
        r@ == v@,
{
    let mut r: Vec<ImportedIngredient> = Vec::new();
    let mut i: usize = 0;
    while i < v.len()
        invariant
            0 <= i <= v@.len(),
            r@ == v@.take(i as int),
        decreases v@.len() - i,
    {
        r.push(v[i].duplicate());
        i = i + 1;
        assert(r@ == v@.take(i as int));
    }
    assert(v@.take(v@.len() as int) == v@);
    r
}

/// A copy of a list of failed barcodes.
pub fn copy_failed(v: &Vec<FailedBarcode>) -> (r: Vec<FailedBarcode>)
    ensures
        r@ == v@,
{
    let mut r: Vec<FailedBarcode> = Vec::new();
    let mut i: usize = 0;
    while i < v.len()
        invariant
            0 <= i <= v@.len(),
            r@ == v@.take(i as int),
        decreases v@.len() - i,
    {
        r.push(v[i].duplicate());
        i = i + 1;
        assert(r@ == v@.take(i as int));
    }
    assert(v@.take(v@.len() as int) == v@);
    r
}

/// What a status report says of a job: its id and status name; its
/// progress while it is not finished, and none once it is; the import
/// result when it completed an import; the wait when it was
/// rate limited; the reason when it failed or was rate limited.
pub open spec fn reports(r: ImportJobResponse, j: JobView) -> bool {
    &&& r.import_job_id == j.job_id
    &&& r.status@ == j.status.name()
    &&& r.progress == (if j.status.is_active() { Some(j.progress) } else { None })
    &&& match j.status {
        JobStatusView::Completed(JobResultView::ImportResult { imported, failed }) => r.result matches Some(
            res,
        ) && res.imported@ == imported && res.failed@ == failed,
        _ => r.result is None,
    }
    &&& r.retry_after_minutes == (match j.status {
        JobStatusView::RateLimited { retry_after_minutes, .. } => Some(retry_after_minutes),
        _ => None,
    })
    &&& match j.status {
        JobStatusView::Failed(m) => r.error matches Some(e) && e@ == m,
        JobStatusView::RateLimited { message, .. } => r.error matches Some(e) && e@ == message,
        _ => r.error is None,
    }
}

impl ImportJobResponse {
    /// The status report for a job: its id and status name; its progress
    /// while the job is pending or processing, and none once it is
    /// finished; the import result when it completed an import; the wait when it was rate
    /// limited; the reason when it failed or was rate limited.
    pub fn from_job(job: &Job) -> (r: Self)
        ensures
            r.import_job_id == job.job_id,
            r.status@ == job.status.spec_name(),
            job.status is Pending || job.status is Processing ==> r.progress == Some(job.progress),
            !(job.status is Pending || job.status is Processing) ==> r.progress is None,
            match job.status {
                JobStatus::Completed(JobResult::ImportResult { imported, failed }) => r.result matches Some(
                    res,
                ) && res.imported@ == imported@ && res.failed@ == failed@,
                _ => r.result is None,
            },
            r.retry_after_minutes == (match job.status {
                JobStatus::RateLimited { retry_after_minutes, .. } => Some(retry_after_minutes),
                _ => None,
            }),
            match job.status {
                JobStatus::Failed(reason) => r.error == Some(reason),
                JobStatus::RateLimited { message, .. } => r.error == Some(message),
                _ => r.error is None,
            },
            reports(r, job@),
    {
        ImportJobResponse {
            import_job_id: job.job_id,
            status: String::from_str(job.status.as_str()),
            progress: if job.status.is_active() { Some(job.progress) } else { None },
            result: match &job.status {
                JobStatus::Completed(JobResult::ImportResult { imported, failed }) => Some(
                    ImportJobResult { imported: copy_imported(imported), failed: copy_failed(failed) },
                ),
                _ => None,
            },
            retry_after_minutes: match &job.status {
                JobStatus::RateLimited { retry_after_minutes, .. } => Some(*retry_after_minutes),
                _ => None,
            },
            error: match &job.status {
                JobStatus::Failed(reason) => Some(reason.clone()),
                JobStatus::RateLimited { message, .. } => Some(message.clone()),
                _ => None,
            },
        }
    }
}

} // verus!
