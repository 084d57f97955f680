use backend::error::AppError;
use backend::handlers::cooking_profile::{
    append_chunk, barcode_candidates, barcodes_from_csv, barcodes_from_records,
    check_content_type, is_file_field, multipart_error, read_error, require_csv_upload,
    unique_barcodes, CompiledPattern, MAX_CSV_BYTES,
};
use backend::job_store::{JobResult, JobStatus};
use backend::models::barcode_import::{BarcodeSearchResult, FailedBarcode, ImportedIngredient};
use backend::services::barcode_import_orchestrator::{lookup_outcome, ImportProgress, TaskOutcome};

fn bad_request(r: Result<Vec<String>, AppError>) -> String {
    match r {
        Err(AppError::BadRequest(m)) => m,
        _ => panic!("expected a bad request"),
    }
}

#[test]
fn barcodes_are_found_trimmed_and_once() {
    let csv = b"name,code\nPasta, 4006381333931 \nRice,12345\n4006381333931,5000112637922\n";
    let found = barcodes_from_csv(csv).unwrap();
    assert_eq!(found, vec!["4006381333931", "5000112637922"]);
}

#[test]
fn rows_may_have_any_length() {
    let csv = b"1111111111111\n2222222222222,x,y\n\n3333333333333";
    let found = barcodes_from_csv(csv).unwrap();
    assert_eq!(found, vec!["1111111111111", "2222222222222", "3333333333333"]);
}

#[test]
fn csv_without_barcodes_is_refused() {
    assert_eq!(bad_request(barcodes_from_csv(b"a,b\n123,abc\n")), "No valid EAN-13 barcodes found in CSV");
    assert_eq!(bad_request(barcodes_from_csv(b"40063813339310\n")), "No valid EAN-13 barcodes found in CSV");
}

#[test]
fn unreadable_csv_is_refused_with_its_error() {
    let m = bad_request(barcodes_from_csv(b"4006381333931\n\xff\xfe,1\n"));
    assert!(m.starts_with("CSV row error: "), "{m}");
}

#[test]
fn records_to_barcodes() {
    let matcher = CompiledPattern::ean13().expect("the pattern compiles");
    let rows = vec![
        vec![" 4006381333931".to_string(), "x".to_string()],
        vec!["4006381333931".to_string()],
    ];
    let cells = barcode_candidates(&rows);
    assert_eq!(cells, vec!["4006381333931", "x", "4006381333931"]);
    assert_eq!(unique_barcodes(&matcher, &cells), vec!["4006381333931"]);
    assert_eq!(barcodes_from_records(&matcher, Ok(rows)).unwrap(), vec!["4006381333931"]);
    let m = match barcodes_from_records(&matcher, Err("bad quote".into())) {
        Err(AppError::BadRequest(m)) => m,
        _ => panic!(),
    };
    assert_eq!(m, "CSV row error: bad quote");
}

#[test]
fn upload_checks() {
    assert!(is_file_field(Some("file")));
    assert!(!is_file_field(Some("other")));
    assert!(!is_file_field(None));
    assert!(check_content_type(None).is_ok());
    assert!(check_content_type(Some("text/csv")).is_ok());
    assert!(check_content_type(Some("application/vnd.ms-excel; x=csv")).is_ok());
    assert!(check_content_type(Some("text/plain; charset=utf-8")).is_ok());
    match check_content_type(Some("image/png")) {
        Err(AppError::BadRequest(m)) => assert_eq!(m, "Only CSV files are accepted"),
        _ => panic!(),
    }
    assert!(require_csv_upload(true, &vec![1]).is_ok());
    for (found, bytes) in [(false, vec![1u8]), (true, vec![])] {
        match require_csv_upload(found, &bytes) {
            Err(AppError::BadRequest(m)) => assert_eq!(m, "No CSV file provided in 'file' field"),
            _ => panic!(),
        }
    }
    assert!(matches!(multipart_error("eof"), AppError::BadRequest(ref m) if m == "Multipart error: eof"));
    assert!(matches!(read_error("eof"), AppError::BadRequest(ref m) if m == "Read error: eof"));
}

#[test]
fn uploads_over_one_megabyte_are_refused() {
    assert_eq!(MAX_CSV_BYTES, 1_048_576);
    let mut buf = Vec::new();
    assert!(append_chunk(&mut buf, &vec![b'1'; MAX_CSV_BYTES - 1]).is_ok());
    assert!(append_chunk(&mut buf, b"2").is_ok());
    assert_eq!(buf.len(), MAX_CSV_BYTES);
    match append_chunk(&mut buf, b"3") {
        Err(AppError::BadRequest(m)) => assert_eq!(m, "File exceeds 1 MB limit"),
        _ => panic!("expected the limit"),
    }
}

#[test]
fn lookup_outcomes() {
    match lookup_outcome(
        "4006381333931".into(),
        Ok(BarcodeSearchResult { name: Some("Pasta".into()), photo_link: Some("p".into()) }),
    ) {
        TaskOutcome::Imported(i) => {
            assert_eq!(i.barcode, "4006381333931");
            assert_eq!(i.name, "Pasta");
            assert_eq!(i.photo_link.as_deref(), Some("p"));
        }
        _ => panic!(),
    }
    match lookup_outcome("1".into(), Ok(BarcodeSearchResult { name: None, photo_link: None })) {
        TaskOutcome::Failed(f) => assert_eq!(f.reason, "No product found for this barcode"),
        _ => panic!(),
    }
    match lookup_outcome("1".into(), Err(AppError::InternalServerError("timeout".into()))) {
        TaskOutcome::Failed(f) => assert_eq!(f.reason, "Internal server error: timeout"),
        _ => panic!(),
    }
    match lookup_outcome("1".into(), Err(AppError::RateLimitError { message: "BrightData".into(), retry_after_minutes: 5 })) {
        TaskOutcome::RateLimited { message, retry_after_minutes } => {
            assert_eq!(message, "BrightData");
            assert_eq!(retry_after_minutes, 5);
        }
        _ => panic!(),
    }
}

fn imported(code: &str) -> TaskOutcome {
    TaskOutcome::Imported(ImportedIngredient { barcode: code.into(), name: code.into(), photo_link: None })
}

fn failed(code: &str) -> TaskOutcome {
    TaskOutcome::Failed(FailedBarcode { barcode: code.into(), reason: "none".into() })
}

#[test]
fn empty_import_completes_at_once() {
    match ImportProgress::start(0) {
        Err(JobStatus::Completed(JobResult::ImportResult { imported, failed })) => {
            assert!(imported.is_empty() && failed.is_empty());
        }
        _ => panic!("expected completion"),
    }
}

#[test]
fn import_progress_counts_to_ninety_then_completes() {
    let mut p = ImportProgress::start(3).ok().unwrap();
    assert_eq!(p.record(imported("a")).0, 30);
    assert_eq!(p.record(failed("b")).0, 60);
    let (progress, stop) = p.record(imported("c"));
    assert_eq!(progress, 90);
    assert!(stop.is_none());
    assert!(p.needs_saving());
    let (progress, status) = p.finish(Ok(()));
    assert_eq!(progress, Some(100));
    match status {
        JobStatus::Completed(JobResult::ImportResult { imported, failed }) => {
            let names: Vec<String> = imported.iter().map(|i| i.name.clone()).collect();
            assert_eq!(names, vec!["a", "c"]);
            assert_eq!(failed.len(), 1);
        }
        _ => panic!(),
    }
}

#[test]
fn import_progress_rounds_down() {
    let mut p = ImportProgress::start(7).ok().unwrap();
    assert_eq!(p.record(failed("a")).0, 12);
    assert_eq!(p.record(failed("b")).0, 25);
}

#[test]
fn rate_limit_stops_the_import() {
    let mut p = ImportProgress::start(4).ok().unwrap();
    p.record(imported("a"));
    let (progress, stop) = p.record(TaskOutcome::RateLimited { message: "BrightData".into(), retry_after_minutes: 5 });
    assert_eq!(progress, 45);
    match stop {
        Some(JobStatus::RateLimited { message, retry_after_minutes }) => {
            assert_eq!(message, "BrightData");
            assert_eq!(retry_after_minutes, 5);
        }
        _ => panic!("expected a stop"),
    }
    // The stop is for good: later lookups change nothing and nothing is saved.
    assert!(!p.needs_saving());
    let (progress, stop) = p.record(imported("c"));
    assert_eq!(progress, 45);
    assert!(stop.is_none());
    let (progress, stop) = p.record(TaskOutcome::RateLimited { message: "again".into(), retry_after_minutes: 9 });
    assert_eq!(progress, 45);
    assert!(stop.is_none());
    assert_eq!(p.completed, 2);
    assert_eq!(p.imported.len(), 1);
    assert!(!p.needs_saving());
}

#[test]
fn failed_save_fails_the_import() {
    let mut p = ImportProgress::start(1).ok().unwrap();
    p.record(imported("a"));
    let (progress, status) = p.finish(Err(AppError::InternalServerError("disk full".into())));
    assert_eq!(progress, None);
    match status {
        JobStatus::Failed(m) => assert_eq!(m, "Import succeeded but failed to save to database: Internal server error: disk full"),
        _ => panic!(),
    }
}

#[test]
fn nothing_imported_needs_no_save() {
    let mut p = ImportProgress::start(1).ok().unwrap();
    p.record(failed("a"));
    assert!(!p.needs_saving());
    let (progress, status) = p.finish(Err(AppError::InternalServerError("unused".into())));
    assert_eq!(progress, Some(100));
    assert!(matches!(status, JobStatus::Completed(_)));
}
