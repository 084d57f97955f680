//! Recipes as the service extracts, filters and renders them.
use vstd::prelude::*;
use crate::job_store::{Job, JobResult, JobResultView, JobStatus, JobStatusView, JobView};

verus! {

/// Tokens consumed by one model call.
#[derive(PartialEq, Eq, Structural, Clone, Copy, Debug)]
pub struct ModelUsage {
    pub input_tokens: u32,
    pub output_tokens: u32,
}

/// What the user asks for: a free-text request and the appliance they
/// would like to cook with.
pub struct ActiveContext {
    pub query: String,
    pub kitchen_appliances_id: u32,
}

/// How a page was classified before extraction.
#[derive(PartialEq, Eq, Structural, Clone, Copy, Debug)]
pub struct PageClassification {
    pub is_actual_recipe: bool,
    pub is_single_recipe: bool,
}

/// A tool a recipe uses.
pub struct EquipmentItem {
    pub name: String,
    pub description: Option<String>,
}

/// A recipe as extracted from a web page.
pub struct ParsedRecipe {
    pub title: String,
    pub description: Option<String>,
    pub ingredients: Vec<String>,
    pub instructions: Vec<String>,
    pub cooking_time_minutes: Option<u32>,
    pub servings: Option<u32>,
    pub difficulty: Option<String>,
    pub equipment: Vec<EquipmentItem>,
    pub photo_url: Option<String>,
    pub source_url: String,
    pub source_title: String,
}


/// The result of a finished recipe job: the page, and what the outside
/// services it used cost in millionths of a US dollar.
pub struct RecipeJobResult {
    pub markdown_content: String,
    pub cost_micro_usd: u64,
}

/// The answer to a status query about a recipe job.
pub struct RecipeJobResponse {
    pub job_id: u128,
    /// One of: "pending", "processing", "completed", "failed", "rate_limited".
    pub status: String,
    /// 0–100, present only while the job is not finished (pending or
    /// processing).
    pub progress: Option<u8>,
    /// Present only when the job completed a recipe.
    pub result: Option<RecipeJobResult>,
    /// Present only when the job was rate limited.
    pub retry_after_minutes: Option<u32>,
    /// Present when the job failed or was rate limited.
    pub error: Option<String>,
}

/// What a status report says of a recipe job: its id and status name; its
/// progress while it is not finished, and none once it is; the page and
/// cost when it completed a recipe; the wait when it
/// was rate limited; the reason when it failed or was rate limited.
pub open spec fn recipe_report(r: RecipeJobResponse, j: JobView) -> bool {
    &&& r.job_id == j.job_id
    &&& r.status@ == j.status.name()
    &&& r.progress == (if j.status.is_active() { Some(j.progress) } else { None })
    &&& match j.status {
        JobStatusView::Completed(JobResultView::RecipeResult { markdown_content, cost_micro_usd }) => r.result matches Some(
            res,
        ) && res.markdown_content@ == markdown_content && res.cost_micro_usd == cost_micro_usd,
        _ => r.result is None,
    }
    &&& r.retry_after_minutes == (match j.status {
        JobStatusView::RateLimited { retry_after_minutes, .. } => Some(retry_after_minutes),
        _ => None,
    })
    &&& match j.status {
        JobStatusView::Failed(m) => r.error matches Some(e) && e@ == m,
        JobStatusView::RateLimited { message, .. } => r.error matches Some(e) && e@ == message,
        _ => r.error is None,
    }
}

impl RecipeJobResponse {
    /// The status report of a recipe job.
    pub fn from_job(job: &Job) -> (r: Self)
        ensures
            recipe_report(r, job@),
    {
        RecipeJobResponse {
            job_id: job.job_id,
            status: String::from_str(job.status.as_str()),
            progress: if job.status.is_active() { Some(job.progress) } else { None },
            result: match &job.status {
                JobStatus::Completed(JobResult::RecipeResult { markdown_content, cost_micro_usd }) => Some(
                    RecipeJobResult {
                        markdown_content: markdown_content.clone(),
                        cost_micro_usd: *cost_micro_usd,
                    },
                ),
                _ => None,
            },
            retry_after_minutes: match &job.status {
                JobStatus::RateLimited { retry_after_minutes, .. } => Some(*retry_after_minutes),
                _ => None,
            },
            error: match &job.status {
                JobStatus::Failed(reason) => Some(reason.clone()),
                JobStatus::RateLimited { message, .. } => Some(message.clone()),
                _ => None,
            },
        }
    }
}

} // verus!
