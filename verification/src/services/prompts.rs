//! The prompts the service sends to the language model: fixed texts with
//! the request, the profile and the page content put in.
use vstd::prelude::*;
use crate::text::{push_str, string_from_chars};

verus! {

/// The prompt that asks for ten search queries for the user's request,
/// given the user's profile as text.
pub fn search_queries_prompt(query: &str, preferences: &str, language: &str, preferred_appliance_hint: &str, ingredients: &str, country: &str, appliances: &str, cookware: &str) -> (r: String)
    ensures
        r@ == "You are a recipe search expert. Generate 10 precise Google search queries\nthat will lead to specific recipe pages (not catalogues).\n\nUser request: \""@ + query@ + "\"\nUser preferences: "@ + preferences@ + "\nNote: the user request and preferences above are most likely written in "@ + language@ + ".\n"@ + preferred_appliance_hint@ + "\nAvailable ingredients (non-exhaustive): "@ + ingredients@ + "\nNote: ingredient and product names are most likely from "@ + country@ + ", so labels and brand\nnames may be written in the local language of that country. Treat them by product type only\n(e.g. a Ukrainian-labelled \"паста Barilla\" → \"pasta\").\nAvailable appliances: "@ + appliances@ + "\nAvailable cookware: "@ + cookware@ + "\nUser country: "@ + country@ + "\n\nRules:\n- Each query must target a SINGLE, concrete recipe (e.g. \"spaghetti carbonara recipe\").\n- Write queries in English.\n- Take user preferences into account (e.g. dietary restrictions, cuisine style).\n- If a preferred appliance is specified, include it in every query (e.g. \"air fryer chicken wings recipe\").\n- IMPORTANT: Ingredient names may include brand names (e.g. \"Barilla spaghetti\", \"Heinz ketchup\").\n  Treat them by their product type only (e.g. \"spaghetti\", \"ketchup\"). Ignore the brand.\n- STRICT RULE: Do not include any domain names or website addresses (e.g., \"allrecipes.com\") in the search queries.\n- Return JSON: { \"queries\": [\"...\", \"...\", ...] }\n"@,
{
    let mut buf: Vec<char> = Vec::new();
    push_str(&mut buf, "You are a recipe search expert. Generate 10 precise Google search queries\nthat will lead to specific recipe pages (not catalogues).\n\nUser request: \"");
    push_str(&mut buf, query);
    push_str(&mut buf, "\"\nUser preferences: ");
    push_str(&mut buf, preferences);
    push_str(&mut buf, "\nNote: the user request and preferences above are most likely written in ");
    push_str(&mut buf, language);
    push_str(&mut buf, ".\n");
    push_str(&mut buf, preferred_appliance_hint);
    push_str(&mut buf, "\nAvailable ingredients (non-exhaustive): ");
    push_str(&mut buf, ingredients);
    push_str(&mut buf, "\nNote: ingredient and product names are most likely from ");
    push_str(&mut buf, country);
    push_str(&mut buf, ", so labels and brand\nnames may be written in the local language of that country. Treat them by product type only\n(e.g. a Ukrainian-labelled \"паста Barilla\" → \"pasta\").\nAvailable appliances: ");
    push_str(&mut buf, appliances);
    push_str(&mut buf, "\nAvailable cookware: ");
    push_str(&mut buf, cookware);
    push_str(&mut buf, "\nUser country: ");
    push_str(&mut buf, country);
    push_str(&mut buf, "\n\nRules:\n- Each query must target a SINGLE, concrete recipe (e.g. \"spaghetti carbonara recipe\").\n- Write queries in English.\n- Take user preferences into account (e.g. dietary restrictions, cuisine style).\n- If a preferred appliance is specified, include it in every query (e.g. \"air fryer chicken wings recipe\").\n- IMPORTANT: Ingredient names may include brand names (e.g. \"Barilla spaghetti\", \"Heinz ketchup\").\n  Treat them by their product type only (e.g. \"spaghetti\", \"ketchup\"). Ignore the brand.\n- STRICT RULE: Do not include any domain names or website addresses (e.g., \"allrecipes.com\") in the search queries.\n- Return JSON: { \"queries\": [\"...\", \"...\", ...] }\n");
    string_from_chars(&buf)
}

/// The prompt that asks whether a page holds exactly one actual recipe.
pub fn page_check_prompt(truncated: &str) -> (r: String)
    ensures
        r@ == "Read the following web page content and answer TWO questions:\n\n1. is_actual_recipe: Does this page contain an actual recipe?\n   - TRUE  → the page has a list of ingredients AND step-by-step cooking instructions.\n   - FALSE → the page is only a description of a dish, a restaurant review, a food article,\n             an ingredient glossary, a nutrition guide, or any other non-recipe content.\n\n2. is_single_recipe: Does this page describe exactly ONE specific recipe?\n   - TRUE  → one concrete recipe (e.g. \"Spaghetti Carbonara\").\n   - FALSE → a list, catalogue, collection, or index of multiple recipes.\n\nPage content:\n---\n"@ + truncated@ + "\n---\n\nReturn JSON:\n{\n  \"is_actual_recipe\": true | false,\n  \"is_single_recipe\": true | false\n}"@,
{
    let mut buf: Vec<char> = Vec::new();
    push_str(&mut buf, "Read the following web page content and answer TWO questions:\n\n1. is_actual_recipe: Does this page contain an actual recipe?\n   - TRUE  → the page has a list of ingredients AND step-by-step cooking instructions.\n   - FALSE → the page is only a description of a dish, a restaurant review, a food article,\n             an ingredient glossary, a nutrition guide, or any other non-recipe content.\n\n2. is_single_recipe: Does this page describe exactly ONE specific recipe?\n   - TRUE  → one concrete recipe (e.g. \"Spaghetti Carbonara\").\n   - FALSE → a list, catalogue, collection, or index of multiple recipes.\n\nPage content:\n---\n");
    push_str(&mut buf, truncated);
    push_str(&mut buf, "\n---\n\nReturn JSON:\n{\n  \"is_actual_recipe\": true | false,\n  \"is_single_recipe\": true | false\n}");
    string_from_chars(&buf)
}

/// The prompt that asks for the recipe of a page, copied verbatim.
pub fn page_parse_prompt(truncated: &str) -> (r: String)
    ensures
        r@ == "Extract the recipe from the following web page content and return it as JSON.\n\nCRITICAL RULES — you MUST follow these exactly:\n- Copy ALL instructions VERBATIM, word for word, exactly as written on the page. Do NOT paraphrase, summarize, shorten, or rewrite anything.\n- Copy ALL ingredients VERBATIM, exactly as listed, including quantities and units.\n- Copy the title and description VERBATIM.\n- Do NOT invent, add, or remove any steps, ingredients, or information.\n- If a field is not present on the page, use null.\n- For equipment: extract every tool, appliance, or cookware item mentioned. Include any description or usage note exactly as written.\n\nPage content:\n---\n"@ + truncated@ + "\n---\n\nReturn this exact JSON shape (use null for missing fields):\n{\n  \"title\": \"string — copied verbatim\",\n  \"description\": \"string | null — copied verbatim\",\n  \"ingredients\": [\"string — each copied verbatim\", ...],\n  \"instructions\": [\"string — each step copied verbatim, complete, unshortened\", ...],\n  \"cooking_time_minutes\": number | null,\n  \"servings\": number | null,\n  \"difficulty\": \"string | null\",\n  \"equipment\": [\n    {\n      \"name\": \"tool name verbatim\",\n      \"description\": \"usage note or description verbatim, or null\"\n    },\n    ...\n  ],\n  \"photo_url\": \"https://... — full URL of the main dish photo, copied exactly as it appears in the page, or null\"\n}"@,
{
    let mut buf: Vec<char> = Vec::new();
    push_str(&mut buf, "Extract the recipe from the following web page content and return it as JSON.\n\nCRITICAL RULES — you MUST follow these exactly:\n- Copy ALL instructions VERBATIM, word for word, exactly as written on the page. Do NOT paraphrase, summarize, shorten, or rewrite anything.\n- Copy ALL ingredients VERBATIM, exactly as listed, including quantities and units.\n- Copy the title and description VERBATIM.\n- Do NOT invent, add, or remove any steps, ingredients, or information.\n- If a field is not present on the page, use null.\n- For equipment: extract every tool, appliance, or cookware item mentioned. Include any description or usage note exactly as written.\n\nPage content:\n---\n");
    push_str(&mut buf, truncated);
    push_str(&mut buf, "\n---\n\nReturn this exact JSON shape (use null for missing fields):\n{\n  \"title\": \"string — copied verbatim\",\n  \"description\": \"string | null — copied verbatim\",\n  \"ingredients\": [\"string — each copied verbatim\", ...],\n  \"instructions\": [\"string — each step copied verbatim, complete, unshortened\", ...],\n  \"cooking_time_minutes\": number | null,\n  \"servings\": number | null,\n  \"difficulty\": \"string | null\",\n  \"equipment\": [\n    {\n      \"name\": \"tool name verbatim\",\n      \"description\": \"usage note or description verbatim, or null\"\n    },\n    ...\n  ],\n  \"photo_url\": \"https://... — full URL of the main dish photo, copied exactly as it appears in the page, or null\"\n}");
    string_from_chars(&buf)
}

/// The prompt that asks which recipes of a batch the user's appliances and
/// cookware allow.
pub fn appliance_filter_prompt(appliances: &str, cookware: &str, recipes_json: &str) -> (r: String)
    ensures
        r@ == "You are a strict kitchen equipment filter. Your ONLY job is to check whether\na recipe can be made with the user's available kitchen APPLIANCES and COOKWARE.\n\nSTRICT RULES:\n1. ONLY consider physical kitchen appliances (e.g. oven, microwave, air fryer, blender,\n   stand mixer, pressure cooker) and cookware (e.g. frying pan, wok, baking tray,\n   casserole dish, springform pan).\n2. IGNORE everything that is NOT an appliance or cookware:\n   - ingredients → ignore\n   - cooking techniques or skills → ignore\n   - serving ware, plates, glasses → ignore\n   - knives, peelers, graters, spoons, spatulas, whisks → ignore (basic hand tools are always available)\n   - cutting boards, colanders, mixing bowls → ignore (basic prep tools always available)\n3. Mark a recipe keep: FALSE only when it EXPLICITLY requires a specific appliance or\n   cookware piece that is NOT in the user's list AND cannot reasonably be substituted\n   with what is available.\n4. When in doubt → keep: TRUE. Do not reject recipes over minor or substitutable equipment.\n5. Do NOT invent equipment requirements — only consider what the recipe explicitly states.\n\nAvailable appliances: "@ + appliances@ + "\nAvailable cookware: "@ + cookware@ + "\n\nRecipes (JSON array, indices are 0-based within this batch):\n"@ + recipes_json@ + "\n\nReturn JSON:\n{\n  \"recipes\": [\n    { \"index\": 0, \"keep\": true },\n    { \"index\": 1, \"keep\": false },\n    ...\n  ]\n}"@,
{
    let mut buf: Vec<char> = Vec::new();
    push_str(&mut buf, "You are a strict kitchen equipment filter. Your ONLY job is to check whether\na recipe can be made with the user's available kitchen APPLIANCES and COOKWARE.\n\nSTRICT RULES:\n1. ONLY consider physical kitchen appliances (e.g. oven, microwave, air fryer, blender,\n   stand mixer, pressure cooker) and cookware (e.g. frying pan, wok, baking tray,\n   casserole dish, springform pan).\n2. IGNORE everything that is NOT an appliance or cookware:\n   - ingredients → ignore\n   - cooking techniques or skills → ignore\n   - serving ware, plates, glasses → ignore\n   - knives, peelers, graters, spoons, spatulas, whisks → ignore (basic hand tools are always available)\n   - cutting boards, colanders, mixing bowls → ignore (basic prep tools always available)\n3. Mark a recipe keep: FALSE only when it EXPLICITLY requires a specific appliance or\n   cookware piece that is NOT in the user's list AND cannot reasonably be substituted\n   with what is available.\n4. When in doubt → keep: TRUE. Do not reject recipes over minor or substitutable equipment.\n5. Do NOT invent equipment requirements — only consider what the recipe explicitly states.\n\nAvailable appliances: ");
    push_str(&mut buf, appliances);
    push_str(&mut buf, "\nAvailable cookware: ");
    push_str(&mut buf, cookware);
    push_str(&mut buf, "\n\nRecipes (JSON array, indices are 0-based within this batch):\n");
    push_str(&mut buf, recipes_json);
    push_str(&mut buf, "\n\nReturn JSON:\n{\n  \"recipes\": [\n    { \"index\": 0, \"keep\": true },\n    { \"index\": 1, \"keep\": false },\n    ...\n  ]\n}");
    string_from_chars(&buf)
}

/// The prompt that asks for the recipe that best matches the request.
pub fn best_recipe_prompt(query: &str, preferences: &str, language: &str, country: &str, preferred_hint: &str, ingredients: &str, appliances: &str, cookware: &str, recipes_json: &str) -> (r: String)
    ensures
        r@ == "You are a culinary expert. Choose the SINGLE best recipe from the list below\nthat best matches the user's request and profile.\n\nUser request: \""@ + query@ + "\"\nUser preferences: "@ + preferences@ + "\nNote: the user request and preferences above are most likely written in "@ + language@ + ".\n"@ + preferred_hint@ + "\nUser available ingredients: "@ + ingredients@ + "\nNote: ingredient and product names are most likely from "@ + country@ + ", so labels and brand\nnames may be written in the local language of that country. Match by product type only —\nignore brand and language of the label.\nUser available appliances: "@ + appliances@ + "\nUser available cookware: "@ + cookware@ + "\n\nIMPORTANT: Ingredient names may include brand names. Match by PRODUCT TYPE only.\n\nCandidate recipes (JSON array):\n"@ + recipes_json@ + "\n\nConsider all aspects: match to request, available ingredients, appliances/cookware,\ndietary preferences. If a preferred appliance is specified, weigh it heavily.\n\nReturn JSON: { \"best_index\": <number> }"@,
{
    let mut buf: Vec<char> = Vec::new();
    push_str(&mut buf, "You are a culinary expert. Choose the SINGLE best recipe from the list below\nthat best matches the user's request and profile.\n\nUser request: \"");
    push_str(&mut buf, query);
    push_str(&mut buf, "\"\nUser preferences: ");
    push_str(&mut buf, preferences);
    push_str(&mut buf, "\nNote: the user request and preferences above are most likely written in ");
    push_str(&mut buf, language);
    push_str(&mut buf, ".\n");
    push_str(&mut buf, preferred_hint);
    push_str(&mut buf, "\nUser available ingredients: ");
    push_str(&mut buf, ingredients);
    push_str(&mut buf, "\nNote: ingredient and product names are most likely from ");
    push_str(&mut buf, country);
    push_str(&mut buf, ", so labels and brand\nnames may be written in the local language of that country. Match by product type only —\nignore brand and language of the label.\nUser available appliances: ");
    push_str(&mut buf, appliances);
    push_str(&mut buf, "\nUser available cookware: ");
    push_str(&mut buf, cookware);
    push_str(&mut buf, "\n\nIMPORTANT: Ingredient names may include brand names. Match by PRODUCT TYPE only.\n\nCandidate recipes (JSON array):\n");
    push_str(&mut buf, recipes_json);
    push_str(&mut buf, "\n\nConsider all aspects: match to request, available ingredients, appliances/cookware,\ndietary preferences. If a preferred appliance is specified, weigh it heavily.\n\nReturn JSON: { \"best_index\": <number> }");
    string_from_chars(&buf)
}

/// The prompt that asks for the recipe adapted to the user.
pub fn adapt_content_prompt(query: &str, language: &str, country: &str, preferences: &str, preferred_appliance_hint: &str, available: &str, appliances: &str, cookware: &str, recipe_json: &str) -> (r: String)
    ensures
        r@ == "You are a professional recipe editor. Adapt the recipe below for the user and return structured JSON.\n\nOUTPUT LANGUAGE: Write ALL text fields in "@ + language@ + ". Translate everything fully if not English.\n\nRULES:\n- Make MINIMAL changes — only what is strictly necessary.\n- Do NOT invent new steps or ingredients.\n- Preserve the original cooking technique and character of the dish.\n- Copy instructions VERBATIM where no adaptation is needed.\n- For equipment_steps: only list tools actually used. Specify exact mode/power/temperature from appliance descriptions.\n- For adaptations: only list real changes made. If nothing changed, return an empty array.\n- For tips: practical tips only, no marketing language.\n- For match_scores: score 0-100 per criterion.\n- Match ingredients by PRODUCT TYPE only — ignore brand names.\n- Ingredient/product names may be in local language of "@ + country@ + " — apply product-type matching regardless.\n- For description: translate the original recipe description to "@ + language@ + ". If null, return null.\n\nUser request: \""@ + query@ + "\"\nUser country: "@ + country@ + "\nUser preferences: "@ + preferences@ + "\nUser available ingredients: "@ + available@ + "\n"@ + preferred_appliance_hint@ + "\nUser appliances (with descriptions): "@ + appliances@ + "\nUser cookware (with descriptions): "@ + cookware@ + "\n\nRecipe JSON:\n"@ + recipe_json@ + "\n\nReturn this exact JSON shape:\n{\n  \"description\": \"translated recipe description, or null\",\n  \"match_scores\": {\n    \"overall\": <0-100>,\n    \"query\": <0-100>,\n    \"ingredients\": <0-100>,\n    \"equipment\": <0-100>,\n    \"preferences\": <0-100>,\n    \"difficulty\": <0-100>,\n    \"time\": <0-100>,\n    \"comments\": {\n      \"query\": \"one sentence explanation\",\n      \"ingredients\": \"one sentence explanation\",\n      \"equipment\": \"one sentence explanation\",\n      \"preferences\": \"one sentence explanation\",\n      \"difficulty\": \"one sentence explanation\",\n      \"time\": \"one sentence explanation\"\n    }\n  },\n  \"adaptations\": [\"what was changed and why\", ...],\n  \"tips\": [\"practical tip\", ...],\n  \"ingredients\": [\"200g pasta\", ...],\n  \"servings\": <number | null>,\n  \"total_time_minutes\": <number | null>,\n  \"equipment_steps\": [\n    {\n      \"tool\": \"tool name\",\n      \"action\": \"what it is used for\",\n      \"mode\": \"exact mode/power/temperature, or — if not applicable\"\n    },\n    ...\n  ],\n  \"steps\": [\n    {\n      \"title\": \"Step title\",\n      \"duration_minutes\": <number | null>,\n      \"instructions\": [\"Full instruction sentence\", ...],\n      \"warnings\": [\"⚠️ Critical warning if any\", ...]\n    },\n    ...\n  ]\n}"@,
{
    let mut buf: Vec<char> = Vec::new();
    push_str(&mut buf, "You are a professional recipe editor. Adapt the recipe below for the user and return structured JSON.\n\nOUTPUT LANGUAGE: Write ALL text fields in ");
    push_str(&mut buf, language);
    push_str(&mut buf, ". Translate everything fully if not English.\n\nRULES:\n- Make MINIMAL changes — only what is strictly necessary.\n- Do NOT invent new steps or ingredients.\n- Preserve the original cooking technique and character of the dish.\n- Copy instructions VERBATIM where no adaptation is needed.\n- For equipment_steps: only list tools actually used. Specify exact mode/power/temperature from appliance descriptions.\n- For adaptations: only list real changes made. If nothing changed, return an empty array.\n- For tips: practical tips only, no marketing language.\n- For match_scores: score 0-100 per criterion.\n- Match ingredients by PRODUCT TYPE only — ignore brand names.\n- Ingredient/product names may be in local language of ");
    push_str(&mut buf, country);
    push_str(&mut buf, " — apply product-type matching regardless.\n- For description: translate the original recipe description to ");
    push_str(&mut buf, language);
    push_str(&mut buf, ". If null, return null.\n\nUser request: \"");
    push_str(&mut buf, query);
    push_str(&mut buf, "\"\nUser country: ");
    push_str(&mut buf, country);
    push_str(&mut buf, "\nUser preferences: ");
    push_str(&mut buf, preferences);
    push_str(&mut buf, "\nUser available ingredients: ");
    push_str(&mut buf, available);
    push_str(&mut buf, "\n");
    push_str(&mut buf, preferred_appliance_hint);
    push_str(&mut buf, "\nUser appliances (with descriptions): ");
    push_str(&mut buf, appliances);
    push_str(&mut buf, "\nUser cookware (with descriptions): ");
    push_str(&mut buf, cookware);
    push_str(&mut buf, "\n\nRecipe JSON:\n");
    push_str(&mut buf, recipe_json);
    push_str(&mut buf, "\n\nReturn this exact JSON shape:\n{\n  \"description\": \"translated recipe description, or null\",\n  \"match_scores\": {\n    \"overall\": <0-100>,\n    \"query\": <0-100>,\n    \"ingredients\": <0-100>,\n    \"equipment\": <0-100>,\n    \"preferences\": <0-100>,\n    \"difficulty\": <0-100>,\n    \"time\": <0-100>,\n    \"comments\": {\n      \"query\": \"one sentence explanation\",\n      \"ingredients\": \"one sentence explanation\",\n      \"equipment\": \"one sentence explanation\",\n      \"preferences\": \"one sentence explanation\",\n      \"difficulty\": \"one sentence explanation\",\n      \"time\": \"one sentence explanation\"\n    }\n  },\n  \"adaptations\": [\"what was changed and why\", ...],\n  \"tips\": [\"practical tip\", ...],\n  \"ingredients\": [\"200g pasta\", ...],\n  \"servings\": <number | null>,\n  \"total_time_minutes\": <number | null>,\n  \"equipment_steps\": [\n    {\n      \"tool\": \"tool name\",\n      \"action\": \"what it is used for\",\n      \"mode\": \"exact mode/power/temperature, or — if not applicable\"\n    },\n    ...\n  ],\n  \"steps\": [\n    {\n      \"title\": \"Step title\",\n      \"duration_minutes\": <number | null>,\n      \"instructions\": [\"Full instruction sentence\", ...],\n      \"warnings\": [\"⚠️ Critical warning if any\", ...]\n    },\n    ...\n  ]\n}");
    string_from_chars(&buf)
}

/// The prompt that asks for the page's labels in the user's language.
pub fn ui_labels_prompt(language: &str) -> (r: String)
    ensures
        r@ == "Translate all values in the following JSON to "@ + language@ + ".\nKeep keys exactly as-is. Keep emoji as-is. Return only valid JSON.\n\n{\n  \"match_section\": \"📊 Match with your request\",\n  \"overall_match\": \"Overall match\",\n  \"criterion\": \"Criterion\",\n  \"score\": \"Score\",\n  \"comment\": \"Comment\",\n  \"criterion_query\": \"Query\",\n  \"criterion_ingredients\": \"Ingredients\",\n  \"criterion_equipment\": \"Equipment\",\n  \"criterion_preferences\": \"Preferences\",\n  \"criterion_difficulty\": \"Difficulty\",\n  \"criterion_time\": \"Time\",\n  \"adaptations_section\": \"✏️ What was adapted\",\n  \"ingredients_section\": \"🛒 Ingredients\",\n  \"servings\": \"for\",\n  \"servings_unit\": \"servings\",\n  \"minutes\": \"min\",\n  \"equipment_section\": \"🍳 Equipment and modes\",\n  \"equipment_col_tool\": \"Tool\",\n  \"equipment_col_action\": \"What to do\",\n  \"equipment_col_mode\": \"Mode / Setting\",\n  \"steps_section\": \"📋 Preparation\",\n  \"step_word\": \"Step\",\n  \"step_duration\": \"min\",\n  \"tips_section\": \"💡 Tips\",\n  \"source_label\": \"Source\"\n}"@,
{
    let mut buf: Vec<char> = Vec::new();
    push_str(&mut buf, "Translate all values in the following JSON to ");
    push_str(&mut buf, language);
    push_str(&mut buf, ".\nKeep keys exactly as-is. Keep emoji as-is. Return only valid JSON.\n\n{\n  \"match_section\": \"📊 Match with your request\",\n  \"overall_match\": \"Overall match\",\n  \"criterion\": \"Criterion\",\n  \"score\": \"Score\",\n  \"comment\": \"Comment\",\n  \"criterion_query\": \"Query\",\n  \"criterion_ingredients\": \"Ingredients\",\n  \"criterion_equipment\": \"Equipment\",\n  \"criterion_preferences\": \"Preferences\",\n  \"criterion_difficulty\": \"Difficulty\",\n  \"criterion_time\": \"Time\",\n  \"adaptations_section\": \"✏️ What was adapted\",\n  \"ingredients_section\": \"🛒 Ingredients\",\n  \"servings\": \"for\",\n  \"servings_unit\": \"servings\",\n  \"minutes\": \"min\",\n  \"equipment_section\": \"🍳 Equipment and modes\",\n  \"equipment_col_tool\": \"Tool\",\n  \"equipment_col_action\": \"What to do\",\n  \"equipment_col_mode\": \"Mode / Setting\",\n  \"steps_section\": \"📋 Preparation\",\n  \"step_word\": \"Step\",\n  \"step_duration\": \"min\",\n  \"tips_section\": \"💡 Tips\",\n  \"source_label\": \"Source\"\n}");
    string_from_chars(&buf)
}

/// The hint of the search-query prompt for a preferred appliance.
pub fn search_appliance_hint(name: &str) -> (r: String)
    ensures
        r@ == "\nPREFERRED COOKING APPLIANCE: The user specifically wants to cook using \""@ + name@ + "\". All search queries MUST target recipes designed for or compatible with this appliance.\n"@,
{
    let mut buf: Vec<char> = Vec::new();
    push_str(&mut buf, "\nPREFERRED COOKING APPLIANCE: The user specifically wants to cook using \"");
    push_str(&mut buf, name);
    push_str(&mut buf, "\". All search queries MUST target recipes designed for or compatible with this appliance.\n");
    string_from_chars(&buf)
}

/// The hint of the best-recipe prompt for a preferred appliance.
pub fn ranking_appliance_hint(name: &str) -> (r: String)
    ensures
        r@ == "\nPREFERRED APPLIANCE: The user specifically wants to cook using \""@ + name@ + "\". Strongly prefer recipes designed for or compatible with this appliance. All else being equal, a recipe that uses \""@ + name@ + "\" should rank highest.\n"@,
{
    let mut buf: Vec<char> = Vec::new();
    push_str(&mut buf, "\nPREFERRED APPLIANCE: The user specifically wants to cook using \"");
    push_str(&mut buf, name);
    push_str(&mut buf, "\". Strongly prefer recipes designed for or compatible with this appliance. All else being equal, a recipe that uses \"");
    push_str(&mut buf, name);
    push_str(&mut buf, "\" should rank highest.\n");
    string_from_chars(&buf)
}

/// The hint of the adaptation prompt for a preferred appliance.
pub fn adapt_appliance_hint(name: &str) -> (r: String)
    ensures
        r@ == "\nPreferred appliance: \""@ + name@ + "\". Mention it briefly where relevant.\n"@,
{
    let mut buf: Vec<char> = Vec::new();
    push_str(&mut buf, "\nPreferred appliance: \"");
    push_str(&mut buf, name);
    push_str(&mut buf, "\". Mention it briefly where relevant.\n");
    string_from_chars(&buf)
}

} // verus!
