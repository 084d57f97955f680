use backend::models::recipe::ParsedRecipe;
use backend::services::recipe_orchestrator::{
    render_markdown, AdaptedRecipeStructured, EquipmentStep, MatchComments, MatchScores,
    RecipeStep, UiLabels,
};

fn labels() -> UiLabels {
    UiLabels {
        match_section: "Match".into(),
        overall_match: "Overall".into(),
        criterion: "Criterion".into(),
        score: "Score".into(),
        comment: "Comment".into(),
        criterion_query: "Query".into(),
        criterion_ingredients: "Ingredients".into(),
        criterion_equipment: "Equipment".into(),
        criterion_preferences: "Preferences".into(),
        criterion_difficulty: "Difficulty".into(),
        criterion_time: "Time".into(),
        adaptations_section: "Adapted".into(),
        ingredients_section: "Shopping".into(),
        servings: "for".into(),
        servings_unit: "servings".into(),
        minutes: "min".into(),
        equipment_section: "Tools".into(),
        equipment_col_tool: "Tool".into(),
        equipment_col_action: "Action".into(),
        equipment_col_mode: "Mode".into(),
        steps_section: "Steps".into(),
        step_word: "Step".into(),
        step_duration: "min".into(),
        tips_section: "Tips".into(),
        source_label: "Source".into(),
    }
}

fn scores() -> MatchScores {
    MatchScores {
        overall: 90,
        query: 95,
        ingredients: 80,
        equipment: 100,
        preferences: 70,
        difficulty: 60,
        time: 50,
        comments: MatchComments {
            query: "q".into(),
            ingredients: "i".into(),
            equipment: "e".into(),
            preferences: "p".into(),
            difficulty: "d".into(),
            time: "t".into(),
        },
    }
}

fn recipe(photo: Option<&str>) -> ParsedRecipe {
    ParsedRecipe {
        title: "Soup".into(),
        description: None,
        ingredients: vec![],
        instructions: vec![],
        cooking_time_minutes: None,
        servings: None,
        difficulty: None,
        equipment: vec![],
        photo_url: photo.map(String::from),
        source_url: "https://soup.example".into(),
        source_title: "Soup Site".into(),
    }
}

#[test]
fn full_page_renders_every_section() {
    let data = AdaptedRecipeStructured {
        match_scores: scores(),
        adaptations: vec!["less salt".into()],
        tips: vec!["serve hot".into()],
        equipment_steps: vec![EquipmentStep { tool: "Pot".into(), action: "boil".into(), mode: "high".into() }],
        steps: vec![
            RecipeStep {
                title: "Boil".into(),
                duration_minutes: Some(10),
                instructions: vec!["Boil water.".into()],
                warnings: vec!["Hot!".into()],
            },
            RecipeStep { title: "Serve".into(), duration_minutes: None, instructions: vec![], warnings: vec![] },
        ],
        ingredients: vec!["water".into(), "salt".into()],
        servings: Some(2),
        total_time_minutes: Some(15),
        description: Some("Warm".into()),
        ui_labels: labels(),
    };
    let md = render_markdown(&recipe(Some("https://img")), &data);
    let expected = "![Soup](https://img)\n\n\
# Soup\n\n\
> Warm\n\n\
---\n\n\
## Match\n\n\
**Overall: 90%**\n\n\
| Criterion | Score | Comment |\n\
|----------|--------|----------|\n\
| Query | 95% | q |\n\
| Ingredients | 80% | i |\n\
| Equipment | 100% | e |\n\
| Preferences | 70% | p |\n\
| Difficulty | 60% | d |\n\
| Time | 50% | t |\n\
\n---\n\n\
## Adapted\n\n\
- less salt\n\
\n---\n\n\
## Shopping\n\n\
*for 2 servings · ~15 min*\n\n\
- water\n\
- salt\n\
\n---\n\n\
## Tools\n\n\
| Tool | Action | Mode |\n\
|------------|-----------|----------------------|\n\
| Pot | boil | high |\n\
\n---\n\n\
## Steps\n\n\
### Step 1 — Boil (10 min)\n\n\
Boil water.\n\n\
> Hot!\n\n\
### Step 2 — Serve\n\n\
---\n\n\
## Tips\n\n\
- serve hot\n\
\n---\n\n\
**Source:** [Soup Site](https://soup.example)\n";
    assert_eq!(md, expected);
}

#[test]
fn empty_sections_are_left_out() {
    let data = AdaptedRecipeStructured {
        match_scores: scores(),
        adaptations: vec![],
        tips: vec![],
        equipment_steps: vec![],
        steps: vec![],
        ingredients: vec![],
        servings: None,
        total_time_minutes: Some(5),
        description: None,
        ui_labels: labels(),
    };
    let md = render_markdown(&recipe(None), &data);
    assert!(md.starts_with("# Soup\n\n---\n\n## Match\n\n"));
    assert!(!md.contains("## Adapted"));
    assert!(!md.contains("## Tools"));
    assert!(!md.contains("## Tips"));
    assert!(md.contains("## Shopping\n\n*~5 min*\n\n\n---\n\n## Steps\n\n---\n\n**Source:**"));
}
