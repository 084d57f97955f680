use backend::job_store::{JobResult, JobStatus, JobStore, JOB_TTL_NS};
use backend::models::barcode_import::{FailedBarcode, ImportJobResponse, ImportedIngredient};

#[test]
fn created_job_is_pending_and_found() {
    let mut store = JobStore::new();
    let id = store.create_job(7, 1_000);
    let job = store.get_job(id).expect("job exists");
    assert_eq!(job.job_id, id);
    assert_eq!(job.user_id, 7);
    assert_eq!(job.progress, 0);
    assert_eq!(job.created_at, 1_000);
    assert_eq!(job.status.as_str(), "pending");
    assert!(store.has_active_job(7));
    assert!(!store.has_active_job(8));
}

#[test]
fn two_jobs_get_different_ids() {
    let mut store = JobStore::new();
    let a = store.create_job(1, 0);
    let b = store.create_job(1, 0);
    assert_ne!(a, b);
}

#[test]
fn unknown_job_is_absent_and_updates_do_nothing() {
    let mut store = JobStore::new();
    assert!(store.get_job(42).is_none());
    store.set_progress(42, 50);
    store.set_status(42, JobStatus::Processing);
    assert!(store.get_job(42).is_none());
    assert!(!store.has_active_job(1));
}

#[test]
fn progress_is_capped_at_100() {
    let mut store = JobStore::new();
    let id = store.create_job(1, 0);
    store.set_progress(id, 35);
    assert_eq!(store.get_job(id).unwrap().progress, 35);
    store.set_progress(id, 250);
    assert_eq!(store.get_job(id).unwrap().progress, 100);
}

#[test]
fn finished_jobs_are_not_active() {
    let mut store = JobStore::new();
    let id = store.create_job(3, 0);
    store.set_status(id, JobStatus::Processing);
    assert!(store.has_active_job(3));
    assert_eq!(store.get_job(id).unwrap().status.as_str(), "processing");
    store.set_status(id, JobStatus::Failed("boom".into()));
    assert!(!store.has_active_job(3));
    assert_eq!(store.get_job(id).unwrap().status.as_str(), "failed");
    store.set_status(id, JobStatus::RateLimited { message: "Groq".into(), retry_after_minutes: 1 });
    assert_eq!(store.get_job(id).unwrap().status.as_str(), "rate_limited");
    store.set_status(
        id,
        JobStatus::Completed(JobResult::RecipeResult { markdown_content: "# x".into(), cost_micro_usd: 1500 }),
    );
    assert_eq!(store.get_job(id).unwrap().status.as_str(), "completed");
}

#[test]
fn cleanup_removes_only_outlived_jobs() {
    let mut store = JobStore::new();
    let old = store.create_job(1, 0);
    let young = store.create_job(2, JOB_TTL_NS / 2);
    store.cleanup_old_jobs(JOB_TTL_NS);
    assert!(store.get_job(old).is_none());
    assert!(store.get_job(young).is_some());
    store.cleanup_old_jobs(JOB_TTL_NS - 1 + JOB_TTL_NS / 2);
    assert!(store.get_job(young).is_some());
    store.cleanup_old_jobs(JOB_TTL_NS + JOB_TTL_NS / 2);
    assert!(store.get_job(young).is_none());
}

#[test]
fn job_created_in_the_future_is_kept() {
    let mut store = JobStore::new();
    let id = store.create_job(1, 5_000);
    store.cleanup_old_jobs(10);
    assert!(store.get_job(id).is_some());
}

#[test]
fn import_status_report() {
    let mut store = JobStore::new();
    let id = store.create_job(5, 0);
    let r = ImportJobResponse::from_job(&store.get_job(id).unwrap());
    assert_eq!(r.import_job_id, id);
    assert_eq!(r.status, "pending");
    assert_eq!(r.progress, Some(0));
    assert!(r.result.is_none());

    store.set_status(id, JobStatus::Processing);
    store.set_progress(id, 45);
    assert_eq!(ImportJobResponse::from_job(&store.get_job(id).unwrap()).progress, Some(45));
    assert!(r.error.is_none());
    assert!(r.retry_after_minutes.is_none());

    store.set_status(id, JobStatus::RateLimited { message: "BrightData".into(), retry_after_minutes: 5 });
    let r = ImportJobResponse::from_job(&store.get_job(id).unwrap());
    assert_eq!(r.status, "rate_limited");
    assert_eq!(r.progress, None);
    assert_eq!(r.retry_after_minutes, Some(5));
    assert_eq!(r.error.as_deref(), Some("BrightData"));

    store.set_status(id, JobStatus::Failed("db down".into()));
    let r = ImportJobResponse::from_job(&store.get_job(id).unwrap());
    assert_eq!(r.error.as_deref(), Some("db down"));
    assert_eq!(r.progress, None);
    assert!(r.retry_after_minutes.is_none());

    store.set_status(
        id,
        JobStatus::Completed(JobResult::ImportResult {
            imported: vec![ImportedIngredient {
                barcode: "4006381333931".into(),
                name: "Pasta".into(),
                photo_link: None,
            }],
            failed: vec![FailedBarcode { barcode: "0000000000000".into(), reason: "none".into() }],
        }),
    );
    store.set_progress(id, 100);
    let r = ImportJobResponse::from_job(&store.get_job(id).unwrap());
    assert_eq!(r.status, "completed");
    assert_eq!(r.progress, None);
    let res = r.result.expect("result");
    assert_eq!(res.imported.len(), 1);
    assert_eq!(res.imported[0].name, "Pasta");
    assert_eq!(res.failed[0].reason, "none");
    assert!(r.error.is_none());
}

#[test]
fn job_ids_are_random_v4_uuids() {
    let mut store = JobStore::new();
    let a = store.create_job(1, 0);
    let b = store.create_job(2, 0);
    for id in [a, b] {
        assert_eq!((id >> 76) & 0xF, 4);
        assert_eq!((id >> 62) & 0x3, 2);
    }
    assert_ne!(a, b);
    assert_eq!(store.get_job(a).unwrap().user_id, 1);
    assert_eq!(store.get_job(b).unwrap().user_id, 2);
}
