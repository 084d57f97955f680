//! The decisions of a barcode import job: what the lookup of each barcode
//! comes to, how progress is counted while lookups finish, and which status
//! the job ends in.
//!
//! The caller runs the lookups and the database write; it hands each
//! finished lookup to [`ImportProgress::record`] and sets the progress and
//! status that come back.
use vstd::prelude::*;
use crate::error::AppError;
use crate::job_store::{JobResult, JobStatus};
use crate::models::barcode_import::{BarcodeSearchResult, FailedBarcode, ImportedIngredient};
use crate::text::{push_str, string_from_chars};

verus! {

/// What the lookup of one barcode came to.
pub enum TaskOutcome {
    Imported(ImportedIngredient),
    Failed(FailedBarcode),
    RateLimited { message: String, retry_after_minutes: u32 },
}

/// The outcome of looking up `barcode`, given what the search answered: a
/// product with a name is imported, one without fails with "No product found
/// for this barcode", a rate limit stops the job, and any other error fails
/// the barcode with the error's text.
pub fn lookup_outcome(barcode: String, result: Result<BarcodeSearchResult, AppError>) -> (r:
    TaskOutcome)
    ensures
        match result {
            Ok(found) => match found.name {
                Some(name) => r matches TaskOutcome::Imported(i) && i.barcode@ == barcode@
                    && i.name@ == name@ && i.photo_link == found.photo_link,
                None => r matches TaskOutcome::Failed(f) && f.barcode@ == barcode@ && f.reason@
                    == "No product found for this barcode"@,
            },
            Err(AppError::RateLimitError { message, retry_after_minutes }) => r matches TaskOutcome::RateLimited {
                message: m,
                retry_after_minutes: w,
            } && m@ == message@ && w == retry_after_minutes,
            Err(e) => r matches TaskOutcome::Failed(f) && f.barcode@ == barcode@ && f.reason@
                == e.spec_display(),
        },
{
    match result {
        Ok(found) => match found.name {
            Some(name) => TaskOutcome::Imported(
                ImportedIngredient { barcode, name, photo_link: found.photo_link },
            ),
            None => TaskOutcome::Failed(
                FailedBarcode {
                    barcode,
                    reason: String::from_str("No product found for this barcode"),
                },
            ),
        },
        Err(AppError::RateLimitError { message, retry_after_minutes }) => TaskOutcome::RateLimited {
            message,
            retry_after_minutes,
        },
        Err(e) => {
            let reason = e.to_string();
            TaskOutcome::Failed(FailedBarcode { barcode, reason })
        },
    }
}

/// The progress shown once `completed` of `total` lookups have finished:
/// lookups fill the first 90 percent.
pub open spec fn import_progress(completed: int, total: int) -> int {
    completed * 90 / total
}

/// The state of a running import: how many lookups there are, how many have
/// finished, what was imported and what failed, and whether a rate limit
/// stopped the job.
pub struct ImportProgress {
    pub total: usize,
    pub completed: usize,
    pub imported: Vec<ImportedIngredient>,
    pub failed: Vec<FailedBarcode>,
    pub halted: bool,
}

impl ImportProgress {
    /// Every finished lookup is counted once: as an import, as a failure,
    /// or (the last one, when the job stopped) as the rate limit.
    pub open spec fn wf(&self) -> bool {
        &&& 0 < self.total
        &&& self.completed <= self.total
        &&& self.imported@.len() + self.failed@.len() + (if self.halted {
            1int
        } else {
            0int
        }) == self.completed
    }

    /// Starts an import of `total` barcodes. With none to look up the job is
    /// complete at once, with nothing imported and nothing failed: that
    /// status is the error.
    pub fn start(total: usize) -> (r: Result<ImportProgress, JobStatus>)
        ensures
            total == 0 ==> (r matches Err(s) && s@ == crate::job_store::JobStatusView::Completed(
                crate::job_store::JobResultView::ImportResult {
                    imported: Seq::empty(),
                    failed: Seq::empty(),
                },
            )),
            total > 0 ==> (r matches Ok(p) && p.wf() && p.total == total && p.completed == 0
                && p.imported@ == Seq::<ImportedIngredient>::empty() && p.failed@ == Seq::<
                FailedBarcode>::empty() && !p.halted),
    {
        if total == 0 {
            Err(
                JobStatus::Completed(
                    JobResult::ImportResult { imported: Vec::new(), failed: Vec::new() },
                ),
            )
        } else {
            Ok(
                ImportProgress {
                    total,
                    completed: 0,
                    imported: Vec::new(),
                    failed: Vec::new(),
                    halted: false,
                },
            )
        }
    }

    /// Records one finished lookup. Returns the progress to show and, when
    /// the lookup hit a rate limit, the status the job ends in. A rate limit
    /// stops the import for good: once it is halted, later lookups change
    /// nothing and bring no status, and nothing is left to save.
    pub fn record(&mut self, outcome: TaskOutcome) -> (r: (u8, Option<JobStatus>))
        requires
            old(self).wf(),
            !old(self).halted ==> old(self).completed < old(self).total,
        ensures
            final(self).wf(),
            final(self).total == old(self).total,
            old(self).halted ==> {
                &&& *final(self) == *old(self)
                &&& r.1 is None
                &&& r.0 as int == import_progress(old(self).completed as int, old(self).total as int)
            },
            !old(self).halted ==> {
                &&& final(self).completed == old(self).completed + 1
                &&& r.0 as int == import_progress(final(self).completed as int, final(self).total as int)
                &&& match outcome {
                    TaskOutcome::Imported(i) => final(self).imported@ == old(self).imported@.push(i)
                        && final(self).failed@ == old(self).failed@ && !final(self).halted && r.1 is None,
                    TaskOutcome::Failed(f) => final(self).failed@ == old(self).failed@.push(f)
                        && final(self).imported@ == old(self).imported@ && !final(self).halted
                        && r.1 is None,
                    TaskOutcome::RateLimited { message, retry_after_minutes } => {
                        &&& final(self).imported@ == old(self).imported@
                        &&& final(self).failed@ == old(self).failed@
                        &&& final(self).halted
                        &&& r.1 matches Some(JobStatus::RateLimited { message: m, retry_after_minutes: w })
                            && m@ == message@ && w == retry_after_minutes
                    },
                }
            },
    {
        if self.halted {
            let c = self.completed as u128;
            let t = self.total as u128;
            proof {
                assert((c as int) * 90 / (t as int) <= 90) by (nonlinear_arith)
                    requires
                        c <= t,
                        0 < t,
                ;
            }
            return (((c * 90) / t) as u8, None);
        }
        self.completed = self.completed + 1;
        let c = self.completed as u128;
        let t = self.total as u128;
        proof {
            assert((c as int) * 90 / (t as int) <= 90) by (nonlinear_arith)
                requires
                    c <= t,
                    0 < t,
            ;
        }
        let progress = ((c * 90) / t) as u8;
        match outcome {
            TaskOutcome::Imported(i) => {
                self.imported.push(i);
                (progress, None)
            },
            TaskOutcome::Failed(f) => {
                self.failed.push(f);
                (progress, None)
            },
            TaskOutcome::RateLimited { message, retry_after_minutes } => {
                self.halted = true;
                (progress, Some(JobStatus::RateLimited { message, retry_after_minutes }))
            },
        }
    }

    /// Whether the imported products must be written to the database before
    /// the job can complete: only when something was imported and no rate
    /// limit stopped the import.
    pub fn needs_saving(&self) -> (r: bool)
        ensures
            r == (self.imported@.len() > 0 && !self.halted),
    {
        self.imported.len() > 0 && !self.halted
    }

    /// The end of an import whose lookups have all finished. `save` is what
    /// writing the imported products gave (consulted only when something was
    /// imported). A failed write fails the job, keeping the progress where it
    /// is; otherwise the progress becomes 100 and the job completes with
    /// the imports and failures in the order they were recorded.
    pub fn finish(self, save: Result<(), AppError>) -> (r: (Option<u8>, JobStatus))
        requires
            self.wf(),
            !self.halted,
            self.completed == self.total,
        ensures
            match save {
                Err(e) => self.imported@.len() > 0 ==> (r.0 is None && (r.1 matches JobStatus::Failed(
                    m,
                ) && m@ == "Import succeeded but failed to save to database: "@ + e.spec_display())),
                Ok(_) => true,
            },
            (save is Ok || self.imported@.len() == 0) ==> r.0 == Some(100u8) && r.1@
                == crate::job_store::JobStatusView::Completed(
                crate::job_store::JobResultView::ImportResult {
                    imported: self.imported@,
                    failed: self.failed@,
                },
            ),
    {
        if self.imported.len() > 0 {
            if let Err(e) = save {
                let mut buf: Vec<char> = Vec::new();
                push_str(&mut buf, "Import succeeded but failed to save to database: ");
                let text = e.to_string();
                push_str(&mut buf, text.as_str());
                return (None, JobStatus::Failed(string_from_chars(&buf)));
            }
        }
        (
            Some(100),
            JobStatus::Completed(
                JobResult::ImportResult { imported: self.imported, failed: self.failed },
            ),
        )
    }
}

/// The progress of an import never goes back and never passes 90 percent
/// while lookups are finishing.
pub proof fn law_import_progress_monotone(c1: int, c2: int, total: int)
    requires
        0 <= c1 <= c2 <= total,
        0 < total,
    ensures
        0 <= import_progress(c1, total) <= import_progress(c2, total) <= 90,
{
    assert(0 <= c1 * 90 / total <= c2 * 90 / total <= 90) by (nonlinear_arith)
        requires
            0 <= c1 <= c2 <= total,
            0 < total,
    ;
}

/// The last lookup of an import shows 90 percent.
pub proof fn law_import_progress_full(total: int)
    requires
        0 < total,
    ensures
        import_progress(total, total) == 90,
{
    assert(total * 90 / total == 90) by (nonlinear_arith)
        requires
            0 < total,
    ;
}

} // verus!
