//! The decisions of the recipe handlers: what a status query about a recipe
//! job answers.
use vstd::prelude::*;
use crate::error::AppError;
use crate::job_store::{uuid_hyphenated, uuid_text, JobStore};
use crate::models::recipe::{recipe_report, RecipeJobResponse};
use crate::text::{push_str, string_from_chars};

verus! {

/// The error for an unknown recipe job: `Job '<uuid>' not found`.
pub fn job_not_found(job_id: u128) -> (r: AppError)
    ensures
        r matches AppError::NotFound(m) && m@ == "Job '"@ + uuid_hyphenated(job_id) + "' not found"@,
{
    let mut buf: Vec<char> = Vec::new();
    push_str(&mut buf, "Job '");
    let id = uuid_text(job_id);
    push_str(&mut buf, id.as_str());
    push_str(&mut buf, "' not found");
    AppError::NotFound(string_from_chars(&buf))
}

/// The status report of a recipe job, for its owner only: an unknown id is
/// not found, another user's job is forbidden.
pub fn get_job_status(store: &JobStore, user_id: i32, job_id: u128) -> (r: Result<
    RecipeJobResponse,
    AppError,
>)
    ensures
        !store@.contains_key(job_id) ==> (r matches Err(AppError::NotFound(m)) && m@ == "Job '"@
            + uuid_hyphenated(job_id) + "' not found"@),
        store@.contains_key(job_id) && store@[job_id].user_id != user_id ==> (r matches Err(
            AppError::Forbidden(m),
        ) && m@ == "You do not have access to this job"@),
        store@.contains_key(job_id) && store@[job_id].user_id == user_id ==> (r matches Ok(resp)
            && recipe_report(resp, store@[job_id])),
{
    let job = match store.get_job(job_id) {
        Some(j) => j,
        None => {
            return Err(job_not_found(job_id));
        },
    };
    if job.user_id != user_id {
        return Err(AppError::Forbidden(String::from_str("You do not have access to this job")));
    }
    Ok(RecipeJobResponse::from_job(&job))
}

} // verus!
