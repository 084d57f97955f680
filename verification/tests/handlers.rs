use backend::error::AppError;
use backend::handlers::cooking_profile::{
    deleted_or_not_found, ensure_no_active_job, extract_user_id, get_import_job_status,
    item_not_found, updated_or_not_found, ProfileItem,
};
use backend::handlers::recipes::{get_job_status, job_not_found};
use backend::job_store::{JobResult, JobStatus, JobStore};
use backend::models::recipe::RecipeJobResponse;
use backend::middleware::auth::AuthenticatedUser;
use backend::models::user_cooking_profile::{
    CountryRow, LanguageRow, CreateApplianceDto, CreateCookwareDto, GlobalPreferencesDto, UpdateApplianceDto,
    UpdateCookwareDto,
};

#[test]
fn user_identity_comes_from_authentication() {
    assert_eq!(extract_user_id(Some(&AuthenticatedUser { user_id: 5 })).unwrap(), 5);
    match extract_user_id(None) {
        Err(AppError::Unauthorized(m)) => assert_eq!(m, "Missing user identity"),
        _ => panic!(),
    }
}

#[test]
fn one_active_job_per_user() {
    let mut store = JobStore::new();
    assert!(ensure_no_active_job(&store, 1).is_ok());
    let id = store.create_job(1, 0);
    match ensure_no_active_job(&store, 1) {
        Err(AppError::RateLimitError { message, retry_after_minutes }) => {
            assert_eq!(message, "Wait your last task");
            assert_eq!(retry_after_minutes, 1);
        }
        _ => panic!("expected to wait"),
    }
    assert!(ensure_no_active_job(&store, 2).is_ok());
    store.set_status(id, JobStatus::Failed("x".into()));
    assert!(ensure_no_active_job(&store, 1).is_ok());
}

#[test]
fn job_status_queries_check_the_owner() {
    let mut store = JobStore::new();
    let id = store.create_job(1, 0);
    assert_eq!(get_job_status(&store, 1, id).ok().unwrap().job_id, id);
    match get_job_status(&store, 2, id) {
        Err(AppError::Forbidden(m)) => assert_eq!(m, "You do not have access to this job"),
        _ => panic!(),
    }
    let unknown: u128 = 0x67e5504410b1426f9247bb680e5fe0c8;
    match get_job_status(&store, 1, unknown) {
        Err(AppError::NotFound(m)) => assert_eq!(m, "Job '67e55044-10b1-426f-9247-bb680e5fe0c8' not found"),
        _ => panic!(),
    }
    assert!(matches!(job_not_found(0), AppError::NotFound(ref m) if m == "Job '00000000-0000-0000-0000-000000000000' not found"));

    assert_eq!(get_import_job_status(&store, 1, id).ok().unwrap().status, "pending");
    match get_import_job_status(&store, 2, id) {
        Err(AppError::Forbidden(m)) => assert_eq!(m, "Access denied"),
        _ => panic!(),
    }
    match get_import_job_status(&store, 1, unknown) {
        Err(AppError::NotFound(m)) => assert_eq!(m, "Import job not found"),
        _ => panic!(),
    }
}

#[test]
fn missing_profile_items() {
    let msg = |e: AppError| match e {
        AppError::NotFound(m) => m,
        _ => panic!(),
    };
    assert_eq!(msg(item_not_found(ProfileItem::Ingredient)), "Ingredient not found");
    assert_eq!(msg(item_not_found(ProfileItem::Appliance)), "Appliance not found");
    assert_eq!(msg(item_not_found(ProfileItem::Cookware)), "Cookware not found");
    assert!(deleted_or_not_found(ProfileItem::Cookware, true).is_ok());
    assert_eq!(msg(deleted_or_not_found(ProfileItem::Cookware, false).unwrap_err()), "Cookware not found");
    assert_eq!(updated_or_not_found(ProfileItem::Appliance, Some(3)).unwrap(), 3);
    assert_eq!(msg(updated_or_not_found::<i32>(ProfileItem::Appliance, None).unwrap_err()), "Appliance not found");
}

#[test]
fn profile_bodies_need_a_name() {
    let err = |r: Result<(), AppError>| match r {
        Err(AppError::UnprocessableEntity(m)) => m,
        _ => panic!(),
    };
    assert!(CreateApplianceDto { name: "Oven".into(), description: None }.validate().is_ok());
    assert_eq!(err(CreateApplianceDto { name: "".into(), description: None }.validate()), "name: name must not be empty");
    assert_eq!(err(UpdateApplianceDto { name: "".into(), description: Some("d".into()) }.validate()), "name: name must not be empty");
    assert_eq!(err(CreateCookwareDto { name: "".into(), description: None }.validate()), "name: name must not be empty");
    assert!(UpdateCookwareDto { name: "Wok".into(), description: None }.validate().is_ok());
    let prefs = GlobalPreferencesDto { preference: None, country_of_residence_id: None, language_id: None };
    assert!(prefs.validate().is_ok());
}

#[test]
fn joined_rows_need_every_column() {
    let c = CountryRow::from_columns(Some(1), Some("SE".into()), Some("Sweden".into())).unwrap();
    assert_eq!((c.id, c.code.as_str(), c.name.as_str()), (1, "SE", "Sweden"));
    assert!(CountryRow::from_columns(Some(1), None, Some("Sweden".into())).is_none());
    assert!(LanguageRow::from_columns(None, Some("sv".into()), Some("Svenska".into())).is_none());
    let l = LanguageRow::from_columns(Some(2), Some("sv".into()), Some("Svenska".into())).unwrap();
    assert_eq!(l.name, "Svenska");
}

#[test]
fn recipe_job_reports_follow_the_status() {
    let mut store = JobStore::new();
    let id = store.create_job(1, 0);
    store.set_progress(id, 40);
    let r = RecipeJobResponse::from_job(&store.get_job(id).unwrap());
    assert_eq!(r.status, "pending");
    assert_eq!(r.progress, Some(40));
    assert!(r.result.is_none() && r.error.is_none() && r.retry_after_minutes.is_none());

    store.set_status(
        id,
        JobStatus::Completed(JobResult::RecipeResult { markdown_content: "# Soup".into(), cost_micro_usd: 1250 }),
    );
    let r = get_job_status(&store, 1, id).ok().unwrap();
    assert_eq!(r.status, "completed");
    assert_eq!(r.progress, None);
    let res = r.result.unwrap();
    assert_eq!(res.markdown_content, "# Soup");
    assert_eq!(res.cost_micro_usd, 1250);
    assert!(r.error.is_none());

    store.set_status(id, JobStatus::Failed("No recipe found".into()));
    let r = get_job_status(&store, 1, id).ok().unwrap();
    assert_eq!(r.status, "failed");
    assert_eq!(r.error.as_deref(), Some("No recipe found"));
    assert!(r.result.is_none() && r.retry_after_minutes.is_none());

    store.set_status(id, JobStatus::RateLimited { message: "Too many requests".into(), retry_after_minutes: 3 });
    let r = get_job_status(&store, 1, id).ok().unwrap();
    assert_eq!(r.status, "rate_limited");
    assert_eq!(r.retry_after_minutes, Some(3));
    assert_eq!(r.error.as_deref(), Some("Too many requests"));
}
