use backend::error::AppError;
use backend::job_store::JobStatus;
use backend::models::recipe::{EquipmentItem, PageClassification, ParsedRecipe};
use backend::models::user_cooking_profile::ApplianceRow;
use backend::services::groq::{
    interpret_completion, Choice, ChoiceMessage, GroqApiError, GroqApiResponse, GroqUsage,
};
use backend::services::recipe_orchestrator::{
    apply_keep_mask, classification_verdict, collect_parsed_recipes, ensure_found,
    extraction_result, failure_status, is_blank, join_names, keep_mask, list_or_none_specified,
    merge_recipe_links, name_with_description, needs_ranking, pick_best, preferred_appliance,
    select_search_queries, successful_pages, text_or, truncate_markdown, PageParseResult,
    ParsedRecipeRaw, RecipeKeepDecision, SearchStage, FILTER_BATCH_SIZE, PAGE_TEXT_LIMIT,
};
use backend::services::prompts::{
    adapt_appliance_hint, page_check_prompt, ranking_appliance_hint, search_appliance_hint,
    search_queries_prompt, ui_labels_prompt,
};
use backend::services::serp::{RecipeSource, RecipeSourcesResult};

fn recipe(title: &str) -> ParsedRecipe {
    ParsedRecipe {
        title: title.into(),
        description: None,
        ingredients: vec![],
        instructions: vec![],
        cooking_time_minutes: None,
        servings: None,
        difficulty: None,
        equipment: vec![],
        photo_url: None,
        source_url: format!("https://{title}"),
        source_title: title.into(),
    }
}

fn titles(v: &[ParsedRecipe]) -> Vec<String> {
    v.iter().map(|r| r.title.clone()).collect()
}

fn rate_limit(who: &str) -> AppError {
    AppError::RateLimitError { message: who.into(), retry_after_minutes: 2 }
}

#[test]
fn truncation_keeps_short_text() {
    assert_eq!(truncate_markdown("short", 10), "short");
    assert_eq!(truncate_markdown("exactly10!", 10), "exactly10!");
}

#[test]
fn truncation_cuts_at_the_last_line_break() {
    assert_eq!(truncate_markdown("ab\ncdefgh", 5), "ab");
    assert_eq!(truncate_markdown("abcdefgh", 5), "abcd");
    // Never inside a character: "é" takes two bytes.
    assert_eq!(truncate_markdown("aéééé", 4), "aé");
    assert_eq!(PAGE_TEXT_LIMIT, 20_000);
}

#[test]
fn search_queries_keep_the_first_ten_nonblank() {
    let qs: Vec<String> = (0..12).map(|i| if i == 1 { "  ".into() } else { format!("q{i}") }).collect();
    let kept = select_search_queries(qs).unwrap();
    assert_eq!(kept, vec!["q0", "q2", "q3", "q4", "q5", "q6", "q7", "q8", "q9"]);
    let e = select_search_queries(vec![" ".into(), "".into()]).unwrap_err();
    assert!(matches!(e, AppError::InternalServerError(ref m) if m == "Groq returned no search queries"));
    assert!(is_blank(" \t\n"));
    assert!(!is_blank(" a "));
}

fn sources(pairs: &[(&str, &str)]) -> Result<RecipeSourcesResult, AppError> {
    Ok(RecipeSourcesResult {
        sources: pairs
            .iter()
            .map(|(t, l)| RecipeSource { title: t.to_string(), link: l.to_string() })
            .collect(),
    })
}

#[test]
fn links_take_three_per_search_once_each() {
    let results = vec![
        sources(&[("A", "a"), ("B", "b"), ("C", "c"), ("D", "d")]),
        Err(AppError::InternalServerError("down".into())),
        sources(&[("B2", "b"), ("E", "e")]),
    ];
    let links = merge_recipe_links(&results).unwrap();
    let got: Vec<(String, String)> = links;
    let want: Vec<(String, String)> = vec![
        ("A".into(), "a".into()),
        ("B".into(), "b".into()),
        ("C".into(), "c".into()),
        ("E".into(), "e".into()),
    ];
    assert_eq!(got, want);
}

#[test]
fn a_rate_limited_search_stops_link_collection() {
    let results = vec![sources(&[("A", "a")]), Err(rate_limit("BrightData")), Err(rate_limit("Other"))];
    match merge_recipe_links(&results) {
        Err(AppError::RateLimitError { message, retry_after_minutes }) => {
            assert_eq!(message, "BrightData");
            assert_eq!(retry_after_minutes, 2);
        }
        _ => panic!("expected the first rate limit"),
    }
}

#[test]
fn failed_fetches_are_skipped() {
    let links = vec![("T1".to_string(), "u1".to_string()), ("T2".to_string(), "u2".to_string())];
    let results = vec![
        Err(AppError::InternalServerError("x".into())),
        Ok(("md2".to_string(), "real2".to_string())),
    ];
    let pages = successful_pages(&links, &results);
    assert_eq!(pages, vec![("T2".into(), "u2".into(), "real2".into(), "md2".into())]);
}

#[test]
fn page_classification_decides_extraction() {
    let both = PageClassification { is_actual_recipe: true, is_single_recipe: true };
    assert!(classification_verdict(Ok(both)).is_none());
    let list = PageClassification { is_actual_recipe: true, is_single_recipe: false };
    let r = classification_verdict(Ok(list)).unwrap();
    assert!(r.recipe.is_none() && r.rate_limit_err.is_none());
    let article = PageClassification { is_actual_recipe: false, is_single_recipe: true };
    assert!(classification_verdict(Ok(article)).unwrap().rate_limit_err.is_none());
    let r = classification_verdict(Err(rate_limit("Groq"))).unwrap();
    assert!(matches!(r.rate_limit_err, Some(AppError::RateLimitError { .. })));
    let r = classification_verdict(Err(AppError::InternalServerError("x".into()))).unwrap();
    assert!(r.recipe.is_none() && r.rate_limit_err.is_none());
}

#[test]
fn extraction_keeps_the_page_source() {
    let raw = ParsedRecipeRaw {
        title: "Soup".into(),
        description: Some("Hot".into()),
        ingredients: vec!["water".into()],
        instructions: vec!["boil".into()],
        cooking_time_minutes: Some(10),
        servings: Some(2),
        difficulty: None,
        equipment: vec![EquipmentItem { name: "pot".into(), description: None }],
        photo_url: None,
    };
    let r = extraction_result(Ok(raw), "Soup site", "https://soup");
    let p = r.recipe.unwrap();
    assert_eq!(p.title, "Soup");
    assert_eq!(p.source_title, "Soup site");
    assert_eq!(p.source_url, "https://soup");
    assert_eq!(p.equipment[0].name, "pot");
    assert!(r.rate_limit_err.is_none());
    let r = extraction_result(Err(rate_limit("Groq")), "t", "u");
    assert!(r.recipe.is_none() && r.rate_limit_err.is_some());
    let r = extraction_result(Err(AppError::BadRequest("x".into())), "t", "u");
    assert!(r.recipe.is_none() && r.rate_limit_err.is_none());
}

#[test]
fn parsed_recipes_in_order_unless_rate_limited() {
    let rs = vec![
        PageParseResult { recipe: Some(recipe("a")), rate_limit_err: None },
        PageParseResult { recipe: None, rate_limit_err: None },
        PageParseResult { recipe: Some(recipe("b")), rate_limit_err: None },
    ];
    assert_eq!(titles(&collect_parsed_recipes(rs).unwrap()), vec!["a", "b"]);
    let rs = vec![
        PageParseResult { recipe: Some(recipe("a")), rate_limit_err: None },
        PageParseResult { recipe: None, rate_limit_err: Some(rate_limit("Groq")) },
    ];
    assert!(matches!(collect_parsed_recipes(rs), Err(AppError::RateLimitError { .. })));
}

#[test]
fn equipment_filter_keeps_chosen_recipes() {
    assert_eq!(FILTER_BATCH_SIZE, 10);
    let d = |index: usize, keep: bool| RecipeKeepDecision { index, keep };
    // 12 recipes in two batches: the first keeps 0 and 3, the second failed.
    let batches = vec![
        Ok(vec![d(0, true), d(1, false), d(3, true)]),
        Err(AppError::InternalServerError("bad answer".into())),
    ];
    let mask = keep_mask(12, &batches).unwrap();
    let want: Vec<bool> = (0..12).map(|i| i == 0 || i == 3 || i >= 10).collect();
    assert_eq!(mask, want);
    let recipes: Vec<ParsedRecipe> = (0..12).map(|i| recipe(&format!("r{i}"))).collect();
    let kept = apply_keep_mask(recipes, &mask);
    assert_eq!(titles(&kept), vec!["r0", "r3", "r10", "r11"]);
}

#[test]
fn equipment_filter_ignores_out_of_range_indices() {
    let batches = vec![Ok(vec![RecipeKeepDecision { index: 7, keep: true }])];
    let mask = keep_mask(3, &batches).unwrap();
    assert_eq!(mask, vec![false, false, false]);
}

#[test]
fn a_rate_limited_batch_stops_the_filter() {
    let batches = vec![Ok(vec![]), Err(rate_limit("Groq"))];
    assert!(matches!(keep_mask(15, &batches), Err(AppError::RateLimitError { .. })));
}

#[test]
fn best_recipe_index_is_capped() {
    let rs = || vec![recipe("a"), recipe("b"), recipe("c")];
    assert_eq!(pick_best(rs(), 1).title, "b");
    assert_eq!(pick_best(rs(), 99).title, "c");
    assert_eq!(pick_best(vec![recipe("only")], 0).title, "only");
    assert!(!needs_ranking(1));
    assert!(needs_ranking(2));
}

#[test]
fn failures_become_job_statuses() {
    match failure_status(rate_limit("Jina")) {
        JobStatus::RateLimited { message, retry_after_minutes } => {
            assert_eq!(message, "Jina");
            assert_eq!(retry_after_minutes, 2);
        }
        _ => panic!("expected rate limited"),
    }
    match failure_status(AppError::InternalServerError("No recipe links found for your query".into())) {
        JobStatus::Failed(m) => assert_eq!(m, "Internal server error: No recipe links found for your query"),
        _ => panic!("expected failed"),
    }
}

#[test]
fn stages_report_progress_and_empty_results() {
    let stages = [
        SearchStage::BuildQueries,
        SearchStage::CollectLinks,
        SearchStage::FetchPages,
        SearchStage::ParsePages,
        SearchStage::FilterByAppliances,
        SearchStage::SelectBest,
        SearchStage::Adapt,
    ];
    let progress: Vec<u8> = stages.iter().map(|s| s.progress()).collect();
    assert_eq!(progress, vec![5, 15, 35, 50, 65, 80, 95]);
    let msg = |s: SearchStage| match ensure_found(s, 0) {
        Err(AppError::InternalServerError(m)) => m,
        _ => String::new(),
    };
    assert_eq!(msg(SearchStage::CollectLinks), "No recipe links found for your query");
    assert_eq!(msg(SearchStage::FetchPages), "Could not fetch any recipe pages");
    assert_eq!(msg(SearchStage::ParsePages), "No valid single-recipe pages found");
    assert_eq!(msg(SearchStage::FilterByAppliances), "No recipes match your available kitchen tools");
    assert!(ensure_found(SearchStage::SelectBest, 0).is_ok());
    assert!(ensure_found(SearchStage::CollectLinks, 3).is_ok());
}

#[test]
fn preferred_appliance_is_the_first_with_the_id() {
    let a = |id: i32, name: &str| ApplianceRow { id, name: name.into(), description: None, user_id: 1 };
    let list = vec![a(3, "oven"), a(7, "air fryer"), a(7, "other")];
    assert_eq!(preferred_appliance(&list, 7), Some(1));
    assert_eq!(preferred_appliance(&list, 9), None);
    let neg = vec![a(-1, "odd")];
    assert_eq!(preferred_appliance(&neg, u32::MAX), Some(0));
}

#[test]
fn prompt_lists() {
    let names = vec!["oven".to_string(), "wok".to_string(), "pan".to_string()];
    assert_eq!(join_names(&names), "oven, wok, pan");
    assert_eq!(join_names(&vec![]), "");
    assert_eq!(list_or_none_specified(&vec![]), "none specified");
    assert_eq!(list_or_none_specified(&names[..1].to_vec()), "oven");
    assert_eq!(text_or(None, "English"), "English");
    assert_eq!(text_or(Some("Svenska"), "English"), "Svenska");
    assert_eq!(name_with_description("Oven", Some("max 250°C")), "Oven (max 250°C)");
    assert_eq!(name_with_description("Wok", None), "Wok");
}

#[test]
fn completions_are_interpreted() {
    let ok = GroqApiResponse {
        choices: Some(vec![Choice { message: Some(ChoiceMessage { content: Some("{\"a\":1}".into()) }) }]),
        usage: Some(GroqUsage { prompt_tokens: Some(12), completion_tokens: None }),
        error: None,
    };
    let (text, usage) = interpret_completion(ok).unwrap();
    assert_eq!(text, "{\"a\":1}");
    assert_eq!((usage.input_tokens, usage.output_tokens), (12, 0));

    let empty = GroqApiResponse { choices: Some(vec![]), usage: None, error: None };
    assert!(matches!(interpret_completion(empty), Err(AppError::InternalServerError(ref m)) if m == "Groq returned no content"));

    let limited = GroqApiResponse {
        choices: None,
        usage: None,
        error: Some(GroqApiError { message: Some("x".into()), code: Some("rate_limit_exceeded".into()) }),
    };
    match interpret_completion(limited) {
        Err(AppError::RateLimitError { message, retry_after_minutes }) => {
            assert_eq!(message, "Groq");
            assert_eq!(retry_after_minutes, 1);
        }
        _ => panic!("expected a rate limit"),
    }
    let other = GroqApiResponse {
        choices: None,
        usage: None,
        error: Some(GroqApiError { message: None, code: None }),
    };
    assert!(matches!(interpret_completion(other), Err(AppError::InternalServerError(ref m)) if m == "Unknown Groq error"));
}

#[test]
fn prompts_put_the_values_in() {
    assert_eq!(
        search_appliance_hint("Air fryer"),
        "\nPREFERRED COOKING APPLIANCE: The user specifically wants to cook using \"Air fryer\". \
         All search queries MUST target recipes designed for or compatible with this appliance.\n"
    );
    assert_eq!(
        ranking_appliance_hint("Wok"),
        "\nPREFERRED APPLIANCE: The user specifically wants to cook using \"Wok\". \
         Strongly prefer recipes designed for or compatible with this appliance. \
         All else being equal, a recipe that uses \"Wok\" should rank highest.\n"
    );
    assert_eq!(adapt_appliance_hint("Oven"), "\nPreferred appliance: \"Oven\". Mention it briefly where relevant.\n");
    let p = page_check_prompt("PAGE TEXT");
    assert!(p.starts_with("Read the following web page content and answer TWO questions:"));
    assert!(p.contains("Page content:\n---\nPAGE TEXT\n---\n"));
    assert!(p.ends_with("\"is_single_recipe\": true | false\n}"));
    let q = search_queries_prompt("soup", "vegan", "Svenska", "", "carrots", "Sweden", "oven", "pot");
    assert!(q.contains("User request: \"soup\"\nUser preferences: vegan\n"));
    assert!(q.contains("User country: Sweden\n"));
    assert!(q.contains("- Return JSON: { \"queries\": [\"...\", \"...\", ...] }\n"));
    assert!(ui_labels_prompt("Deutsch").starts_with("Translate all values in the following JSON to Deutsch.\n"));
}
