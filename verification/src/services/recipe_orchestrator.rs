//! The recipe search pipeline's decisions, and the Markdown page it answers with.
use vstd::prelude::*;
use crate::error::AppError;
use crate::job_store::JobStatus;
use crate::models::recipe::{EquipmentItem, PageClassification, ParsedRecipe};
use crate::models::user_cooking_profile::ApplianceRow;
use crate::services::serp::{RecipeSource, RecipeSourcesResult};
use crate::text::{
    self, chars_of, push_decimal, push_str, string_from_chars, trim_bounds, utf8_width,
};

verus! {

/// One-sentence explanations of the match scores.
pub struct MatchComments {
    pub query: String,
    pub ingredients: String,
    pub equipment: String,
    pub preferences: String,
    pub difficulty: String,
    pub time: String,
}

/// How well the recipe matches the request, per criterion (0–100).
pub struct MatchScores {
    pub overall: u8,
    pub query: u8,
    pub ingredients: u8,
    pub equipment: u8,
    pub preferences: u8,
    pub difficulty: u8,
    pub time: u8,
    pub comments: MatchComments,
}

/// How a tool is used, and in which mode.
pub struct EquipmentStep {
    pub tool: String,
    pub action: String,
    pub mode: String,
}

/// A step of the adapted recipe.
pub struct RecipeStep {
    pub title: String,
    pub duration_minutes: Option<u8>,
    pub instructions: Vec<String>,
    pub warnings: Vec<String>,
}

/// The page's fixed texts, in the user's language.
pub struct UiLabels {
    pub match_section: String,
    pub overall_match: String,
    pub criterion: String,
    pub score: String,
    pub comment: String,
    pub criterion_query: String,
    pub criterion_ingredients: String,
    pub criterion_equipment: String,
    pub criterion_preferences: String,
    pub criterion_difficulty: String,
    pub criterion_time: String,
    pub adaptations_section: String,
    pub ingredients_section: String,
    pub servings: String,
    pub servings_unit: String,
    pub minutes: String,
    pub equipment_section: String,
    pub equipment_col_tool: String,
    pub equipment_col_action: String,
    pub equipment_col_mode: String,
    pub steps_section: String,
    pub step_word: String,
    pub step_duration: String,
    pub tips_section: String,
    pub source_label: String,
}

/// The recipe as adapted for the user, with the page's labels.
pub struct AdaptedRecipeStructured {
    pub match_scores: MatchScores,
    pub adaptations: Vec<String>,
    pub tips: Vec<String>,
    pub equipment_steps: Vec<EquipmentStep>,
    pub steps: Vec<RecipeStep>,
    pub ingredients: Vec<String>,
    pub servings: Option<u32>,
    pub total_time_minutes: Option<u32>,
    pub description: Option<String>,
    pub ui_labels: UiLabels,
}

// ---------------------------------------------------------------------------
// The page, specified
// ---------------------------------------------------------------------------
/// `- item` lines.
pub open spec fn bullets(items: Seq<String>) -> Seq<char>
    decreases items.len(),
{
    if items.len() == 0 {
        Seq::empty()
    } else {
        bullets(items.drop_last()) + "- "@ + items.last()@ + "\n"@
    }
}

/// Paragraphs, each followed by a blank line.
pub open spec fn paragraphs(items: Seq<String>) -> Seq<char>
    decreases items.len(),
{
    if items.len() == 0 {
        Seq::empty()
    } else {
        paragraphs(items.drop_last()) + items.last()@ + "\n\n"@
    }
}

/// Block quotes, each followed by a blank line.
pub open spec fn quotes(items: Seq<String>) -> Seq<char>
    decreases items.len(),
{
    if items.len() == 0 {
        Seq::empty()
    } else {
        quotes(items.drop_last()) + "> "@ + items.last()@ + "\n\n"@
    }
}

/// A table row of three cells.
pub open spec fn row3(a: Seq<char>, b: Seq<char>, c: Seq<char>) -> Seq<char> {
    "| "@ + a + " | "@ + b + " | "@ + c + " |\n"@
}

/// The table rows of the equipment steps.
pub open spec fn equipment_rows(rows: Seq<EquipmentStep>) -> Seq<char>
    decreases rows.len(),
{
    if rows.len() == 0 {
        Seq::empty()
    } else {
        equipment_rows(rows.drop_last()) + row3(
            rows.last().tool@,
            rows.last().action@,
            rows.last().mode@,
        )
    }
}

/// A row of the match table: criterion, score in percent, comment.
pub open spec fn score_row(label: Seq<char>, score: u8, comment: Seq<char>) -> Seq<char> {
    row3(label, text::decimal(score as nat) + "%"@, comment)
}

/// `p` followed by step number `n`: its heading, its instructions and its
/// warnings.
pub open spec fn step_md(p: Seq<char>, l: UiLabels, n: nat, step: RecipeStep) -> Seq<char> {
    let h = p + "### "@ + l.step_word@ + " "@ + text::decimal(n) + " — "@ + step.title@;
    let h2 = match step.duration_minutes {
        Some(d) => h + " ("@ + text::decimal(d as nat) + " "@ + l.step_duration@ + ")\n\n"@,
        None => h + "\n\n"@,
    };
    h2 + paragraphs(step.instructions@) + quotes(step.warnings@)
}

/// `p` followed by the steps, numbered from one.
pub open spec fn steps_md(p: Seq<char>, l: UiLabels, steps: Seq<RecipeStep>) -> Seq<char>
    decreases steps.len(),
{
    if steps.len() == 0 {
        p
    } else {
        step_md(steps_md(p, l, steps.drop_last()), l, steps.len(), steps.last())
    }
}

/// The servings and time line, when either is known.
pub open spec fn meta_line(l: UiLabels, servings: Option<u32>, total: Option<u32>) -> Seq<char> {
    let s = l.servings@ + " "@ + text::decimal(servings.unwrap() as nat) + " "@
        + l.servings_unit@;
    let t = "~"@ + text::decimal(total.unwrap() as nat) + " "@ + l.minutes@;
    match (servings, total) {
        (Some(_), Some(_)) => "*"@ + s + " · "@ + t + "*\n\n"@,
        (Some(_), None) => "*"@ + s + "*\n\n"@,
        (None, Some(_)) => "*"@ + t + "*\n\n"@,
        (None, None) => Seq::empty(),
    }
}

/// The servings and time line shows what is known: nothing when neither is;
/// otherwise a line in `*`…`*` and a blank line that starts with the
/// servings ("for 4 servings") whenever they are known, and ends with the
/// time ("~30 min") whenever it is known.
pub proof fn law_meta_line_shows_what_is_known(l: UiLabels, servings: Option<u32>, total: Option<u32>)
    ensures
        (meta_line(l, servings, total).len() == 0) <==> (servings is None && total is None),
        servings matches Some(s) ==> text::has_prefix(
            meta_line(l, servings, total),
            "*"@ + l.servings@ + " "@ + text::decimal(s as nat) + " "@ + l.servings_unit@,
        ),
        total matches Some(t) ==> ({
            let m = meta_line(l, servings, total);
            let e = "~"@ + text::decimal(t as nat) + " "@ + l.minutes@ + "*\n\n"@;
            e.len() <= m.len() && m.subrange(m.len() - e.len(), m.len() as int) == e
        }),
        (servings is Some || total is Some) ==> text::has_prefix(meta_line(l, servings, total), "*"@),
{
    reveal_strlit("*");
    let m = meta_line(l, servings, total);
    let close = "*\n\n"@;
    let star = "*"@;
    let dot = " · "@;
    match servings {
        Some(s) => {
            let sv = l.servings@ + " "@ + text::decimal(s as nat) + " "@ + l.servings_unit@;
            let p = "*"@ + l.servings@ + " "@ + text::decimal(s as nat) + " "@ + l.servings_unit@;
            assert(p =~= star + sv);
            match total {
                Some(t) => {
                    let tv = "~"@ + text::decimal(t as nat) + " "@ + l.minutes@;
                    assert(m =~= p + (dot + tv + close));
                    assert((p + (dot + tv + close)).subrange(0, p.len() as int) =~= p);
                    assert((p + (dot + tv + close)).subrange(0, star.len() as int) =~= star);
                    let e = tv + close;
                    assert(m =~= (p + dot) + e);
                    assert(((p + dot) + e).subrange(m.len() - e.len(), m.len() as int) =~= e);
                },
                None => {
                    assert(m =~= p + close);
                    assert((p + close).subrange(0, p.len() as int) =~= p);
                    assert((p + close).subrange(0, star.len() as int) =~= star);
                },
            }
        },
        None => {
            match total {
                Some(t) => {
                    let tv = "~"@ + text::decimal(t as nat) + " "@ + l.minutes@;
                    let e = tv + close;
                    assert(m == star + tv + close);
                    assert(m =~= star + e);
                    assert((star + e).subrange(0, star.len() as int) =~= star);
                    assert((star + e).subrange(m.len() - e.len(), m.len() as int) =~= e);
                },
                None => {},
            }
        },
    }
}

/// `p` followed by the page from its top to the end of the match table.
pub open spec fn head_md(p: Seq<char>, recipe: ParsedRecipe, data: AdaptedRecipeStructured) -> Seq<
    char,
> {
    let l = data.ui_labels;
    let m = data.match_scores;
    let c = m.comments;
    let p1 = match recipe.photo_url {
        Some(u) => p + "!["@ + recipe.title@ + "]("@ + u@ + ")\n\n"@,
        None => p,
    };
    let p2 = p1 + "# "@ + recipe.title@ + "\n\n"@;
    let p3 = match data.description {
        Some(d) => p2 + "> "@ + d@ + "\n\n"@,
        None => p2,
    };
    p3 + "---\n\n"@ + "## "@ + l.match_section@ + "\n\n"@ + "**"@ + l.overall_match@ + ": "@
        + text::decimal(m.overall as nat) + "%**\n\n"@ + row3(l.criterion@, l.score@, l.comment@)
        + "|----------|--------|----------|\n"@ + score_row(l.criterion_query@, m.query, c.query@)
        + score_row(l.criterion_ingredients@, m.ingredients, c.ingredients@) + score_row(
        l.criterion_equipment@,
        m.equipment,
        c.equipment@,
    ) + score_row(l.criterion_preferences@, m.preferences, c.preferences@) + score_row(
        l.criterion_difficulty@,
        m.difficulty,
        c.difficulty@,
    ) + score_row(l.criterion_time@, m.time, c.time@) + "\n---\n\n"@
}

/// `p` followed by the adaptations, ingredients and equipment sections.
pub open spec fn body_md(p: Seq<char>, data: AdaptedRecipeStructured) -> Seq<char> {
    let l = data.ui_labels;
    let p1 = if data.adaptations@.len() > 0 {
        p + "## "@ + l.adaptations_section@ + "\n\n"@ + bullets(data.adaptations@)
            + "\n---\n\n"@
    } else {
        p
    };
    let p2 = p1 + "## "@ + l.ingredients_section@ + "\n\n"@ + meta_line(
        l,
        data.servings,
        data.total_time_minutes,
    ) + bullets(data.ingredients@) + "\n---\n\n"@;
    if data.equipment_steps@.len() > 0 {
        p2 + "## "@ + l.equipment_section@ + "\n\n"@ + row3(
            l.equipment_col_tool@,
            l.equipment_col_action@,
            l.equipment_col_mode@,
        ) + "|------------|-----------|----------------------|\n"@ + equipment_rows(
            data.equipment_steps@,
        ) + "\n---\n\n"@
    } else {
        p2
    }
}

/// `p` followed by the steps, tips and source sections.
pub open spec fn tail_md(p: Seq<char>, recipe: ParsedRecipe, data: AdaptedRecipeStructured) -> Seq<
    char,
> {
    let l = data.ui_labels;
    let p1 = steps_md(p + "## "@ + l.steps_section@ + "\n\n"@, l, data.steps@) + "---\n\n"@;
    let p2 = if data.tips@.len() > 0 {
        p1 + "## "@ + l.tips_section@ + "\n\n"@ + bullets(data.tips@) + "\n---\n\n"@
    } else {
        p1
    };
    p2 + "**"@ + l.source_label@ + ":** ["@ + recipe.source_title@ + "]("@ + recipe.source_url@
        + ")\n"@
}

/// The whole page.
pub open spec fn markdown_spec(recipe: ParsedRecipe, data: AdaptedRecipeStructured) -> Seq<char> {
    tail_md(body_md(head_md(Seq::empty(), recipe, data), data), recipe, data)
}

// ---------------------------------------------------------------------------
// The page, written
// ---------------------------------------------------------------------------
fn push_bullets(buf: &mut Vec<char>, items: &Vec<String>)
    ensures
        final(buf)@ == old(buf)@ + bullets(items@),
{
    let ghost start = old(buf)@;
    let mut i: usize = 0;
    while i < items.len()
        invariant
            0 <= i <= items@.len(),
            buf@ == start + bullets(items@.take(i as int)),
        decreases items@.len() - i,
    {
        push_str(buf, "- ");
        push_str(buf, items[i].as_str());
        push_str(buf, "\n");
        proof {
            assert(items@.take(i + 1).drop_last() == items@.take(i as int));
        }
        i = i + 1;
    }
    assert(items@.take(items@.len() as int) == items@);
}

fn push_paragraphs(buf: &mut Vec<char>, items: &Vec<String>)
    ensures
        final(buf)@ == old(buf)@ + paragraphs(items@),
{
    let ghost start = old(buf)@;
    let mut i: usize = 0;
    while i < items.len()
        invariant
            0 <= i <= items@.len(),
            buf@ == start + paragraphs(items@.take(i as int)),
        decreases items@.len() - i,
    {
        push_str(buf, items[i].as_str());
        push_str(buf, "\n\n");
        proof {
            assert(items@.take(i + 1).drop_last() == items@.take(i as int));
        }
        i = i + 1;
    }
    assert(items@.take(items@.len() as int) == items@);
}

fn push_quotes(buf: &mut Vec<char>, items: &Vec<String>)
    ensures
        final(buf)@ == old(buf)@ + quotes(items@),
{
    let ghost start = old(buf)@;
    let mut i: usize = 0;
    while i < items.len()
        invariant
            0 <= i <= items@.len(),
            buf@ == start + quotes(items@.take(i as int)),
        decreases items@.len() - i,
    {
        push_str(buf, "> ");
        push_str(buf, items[i].as_str());
        push_str(buf, "\n\n");
        proof {
            assert(items@.take(i + 1).drop_last() == items@.take(i as int));
        }
        i = i + 1;
    }
    assert(items@.take(items@.len() as int) == items@);
}

fn push_row3(buf: &mut Vec<char>, a: &str, b: &str, c: &str)
    ensures
        final(buf)@ == old(buf)@ + row3(a@, b@, c@),
{
    push_str(buf, "| ");
    push_str(buf, a);
    push_str(buf, " | ");
    push_str(buf, b);
    push_str(buf, " | ");
    push_str(buf, c);
    push_str(buf, " |\n");
}

fn push_score_row(buf: &mut Vec<char>, label: &str, score: u8, comment: &str)
    ensures
        final(buf)@ == old(buf)@ + score_row(label@, score, comment@),
{
    push_str(buf, "| ");
    push_str(buf, label);
    push_str(buf, " | ");
    push_decimal(buf, score as u64);
    push_str(buf, "%");
    push_str(buf, " | ");
    push_str(buf, comment);
    push_str(buf, " |\n");
}

fn push_equipment_rows(buf: &mut Vec<char>, rows: &Vec<EquipmentStep>)
    ensures
        final(buf)@ == old(buf)@ + equipment_rows(rows@),
{
    let ghost start = old(buf)@;
    let mut i: usize = 0;
    while i < rows.len()
        invariant
            0 <= i <= rows@.len(),
            buf@ == start + equipment_rows(rows@.take(i as int)),
        decreases rows@.len() - i,
    {
        let r = &rows[i];
        push_row3(buf, r.tool.as_str(), r.action.as_str(), r.mode.as_str());
        proof {
            assert(rows@.take(i + 1).drop_last() == rows@.take(i as int));
        }
        i = i + 1;
    }
    assert(rows@.take(rows@.len() as int) == rows@);
}

fn push_steps(buf: &mut Vec<char>, l: &UiLabels, steps: &Vec<RecipeStep>)
    ensures
        final(buf)@ == steps_md(old(buf)@, *l, steps@),
{
    let ghost start = old(buf)@;
    let mut i: usize = 0;
    while i < steps.len()
        invariant
            0 <= i <= steps@.len(),
            buf@ == steps_md(start, *l, steps@.take(i as int)),
        decreases steps@.len() - i,
    {
        let step = &steps[i];
        push_str(buf, "### ");
        push_str(buf, l.step_word.as_str());
        push_str(buf, " ");
        push_decimal(buf, (i + 1) as u64);
        push_str(buf, " — ");
        push_str(buf, step.title.as_str());
        match step.duration_minutes {
            Some(d) => {
                push_str(buf, " (");
                push_decimal(buf, d as u64);
                push_str(buf, " ");
                push_str(buf, l.step_duration.as_str());
                push_str(buf, ")\n\n");
            },
            None => {
                push_str(buf, "\n\n");
            },
        }
        push_paragraphs(buf, &step.instructions);
        push_quotes(buf, &step.warnings);
        proof {
            let t = steps@.take(i + 1);
            assert(t.drop_last() == steps@.take(i as int));
            assert(t.last() == *step);
            assert(t.len() == i + 1);
        }
        i = i + 1;
    }
    assert(steps@.take(steps@.len() as int) == steps@);
}

fn push_meta(buf: &mut Vec<char>, l: &UiLabels, servings: Option<u32>, total: Option<u32>)
    ensures
        final(buf)@ == old(buf)@ + meta_line(*l, servings, total),
{
    if servings.is_none() && total.is_none() {
        return;
    }
    push_str(buf, "*");
    if let Some(s) = servings {
        push_str(buf, l.servings.as_str());
        push_str(buf, " ");
        push_decimal(buf, s as u64);
        push_str(buf, " ");
        push_str(buf, l.servings_unit.as_str());
        if total.is_some() {
            push_str(buf, " · ");
        }
    }
    if let Some(t) = total {
        push_str(buf, "~");
        push_decimal(buf, t as u64);
        push_str(buf, " ");
        push_str(buf, l.minutes.as_str());
    }
    push_str(buf, "*\n\n");
}

fn push_head(buf: &mut Vec<char>, recipe: &ParsedRecipe, data: &AdaptedRecipeStructured)
    ensures
        final(buf)@ == head_md(old(buf)@, *recipe, *data),
{
    let l = &data.ui_labels;
    let m = &data.match_scores;
    let c = &m.comments;
    if let Some(url) = &recipe.photo_url {
        push_str(buf, "![");
        push_str(buf, recipe.title.as_str());
        push_str(buf, "](");
        push_str(buf, url.as_str());
        push_str(buf, ")\n\n");
    }
    push_str(buf, "# ");
    push_str(buf, recipe.title.as_str());
    push_str(buf, "\n\n");
    if let Some(desc) = &data.description {
        push_str(buf, "> ");
        push_str(buf, desc.as_str());
        push_str(buf, "\n\n");
    }
    push_str(buf, "---\n\n");
    push_str(buf, "## ");
    push_str(buf, l.match_section.as_str());
    push_str(buf, "\n\n");
    push_str(buf, "**");
    push_str(buf, l.overall_match.as_str());
    push_str(buf, ": ");
    push_decimal(buf, m.overall as u64);
    push_str(buf, "%**\n\n");
    push_row3(buf, l.criterion.as_str(), l.score.as_str(), l.comment.as_str());
    push_str(buf, "|----------|--------|----------|\n");
    push_score_row(buf, l.criterion_query.as_str(), m.query, c.query.as_str());
    push_score_row(buf, l.criterion_ingredients.as_str(), m.ingredients, c.ingredients.as_str());
    push_score_row(buf, l.criterion_equipment.as_str(), m.equipment, c.equipment.as_str());
    push_score_row(buf, l.criterion_preferences.as_str(), m.preferences, c.preferences.as_str());
    push_score_row(buf, l.criterion_difficulty.as_str(), m.difficulty, c.difficulty.as_str());
    push_score_row(buf, l.criterion_time.as_str(), m.time, c.time.as_str());
    push_str(buf, "\n---\n\n");
}

fn push_body(buf: &mut Vec<char>, data: &AdaptedRecipeStructured)
    ensures
        final(buf)@ == body_md(old(buf)@, *data),
{
    let l = &data.ui_labels;
    if data.adaptations.len() > 0 {
        push_str(buf, "## ");
        push_str(buf, l.adaptations_section.as_str());
        push_str(buf, "\n\n");
        push_bullets(buf, &data.adaptations);
        push_str(buf, "\n---\n\n");
    }
    push_str(buf, "## ");
    push_str(buf, l.ingredients_section.as_str());
    push_str(buf, "\n\n");
    push_meta(buf, l, data.servings, data.total_time_minutes);
    push_bullets(buf, &data.ingredients);
    push_str(buf, "\n---\n\n");
    if data.equipment_steps.len() > 0 {
        push_str(buf, "## ");
        push_str(buf, l.equipment_section.as_str());
        push_str(buf, "\n\n");
        push_row3(
            buf,
            l.equipment_col_tool.as_str(),
            l.equipment_col_action.as_str(),
            l.equipment_col_mode.as_str(),
        );
        push_str(buf, "|------------|-----------|----------------------|\n");
        push_equipment_rows(buf, &data.equipment_steps);
        push_str(buf, "\n---\n\n");
    }
}

fn push_tail(buf: &mut Vec<char>, recipe: &ParsedRecipe, data: &AdaptedRecipeStructured)
    ensures
        final(buf)@ == tail_md(old(buf)@, *recipe, *data),
{
    let l = &data.ui_labels;
    push_str(buf, "## ");
    push_str(buf, l.steps_section.as_str());
    push_str(buf, "\n\n");
    push_steps(buf, l, &data.steps);
    push_str(buf, "---\n\n");
    if data.tips.len() > 0 {
        push_str(buf, "## ");
        push_str(buf, l.tips_section.as_str());
        push_str(buf, "\n\n");
        push_bullets(buf, &data.tips);
        push_str(buf, "\n---\n\n");
    }
    push_str(buf, "**");
    push_str(buf, l.source_label.as_str());
    push_str(buf, ":** [");
    push_str(buf, recipe.source_title.as_str());
    push_str(buf, "](");
    push_str(buf, recipe.source_url.as_str());
    push_str(buf, ")\n");
}

/// The Markdown page for the adapted recipe: photo, title and description;
/// the match table; adaptations; ingredients with servings and time;
/// equipment; numbered steps with their warnings; tips; and the source.
pub fn render_markdown(recipe: &ParsedRecipe, data: &AdaptedRecipeStructured) -> (r: String)
    ensures
        r@ == markdown_spec(*recipe, *data),
{
    let mut md: Vec<char> = Vec::new();
    push_head(&mut md, recipe, data);
    push_body(&mut md, data);
    push_tail(&mut md, recipe, data);
    assert(md@ == markdown_spec(*recipe, *data));
    string_from_chars(&md)
}

// ---------------------------------------------------------------------------
// Truncating page content
// ---------------------------------------------------------------------------
/// The first position `k' >= k` at which the characters of `s` before it
/// take at least `max` bytes, or `s.len()`.
pub open spec fn starts_below(s: Seq<char>, max: int, k: int) -> int
    decreases s.len() - k,
{
    if k < 0 || k >= s.len() || text::utf8_len(s.take(k)) >= max {
        k
    } else {
        starts_below(s, max, k + 1)
    }
}

/// The last position before `k` where `s` holds `c`, or -1.
pub open spec fn rfind_before(s: Seq<char>, c: char, k: int) -> int
    decreases k,
{
    if k <= 0 || k > s.len() {
        -1
    } else if s[k - 1] == c {
        k - 1
    } else {
        rfind_before(s, c, k - 1)
    }
}

/// What `truncate_markdown` keeps of `s`: all of it when it fits in `max`
/// bytes; otherwise the characters before the last character that starts
/// below `max` bytes, cut further at the last line break among them.
pub open spec fn truncated(s: Seq<char>, max: int) -> Seq<char> {
    if text::utf8_len(s) <= max {
        s
    } else {
        let n = starts_below(s, max, 0);
        let safe = if n > 0 {
            n - 1
        } else {
            0
        };
        let p = rfind_before(s, '\n', safe);
        if p >= 0 {
            s.take(p)
        } else {
            s.take(safe)
        }
    }
}

/// Shortens page content to at most about `max_chars` bytes, preferring to
/// cut at a line break and never inside a character.
pub fn truncate_markdown(text: &str, max_chars: usize) -> (r: &str)
    requires
        text::utf8_len(text@) <= usize::MAX,
    ensures
        r@ == truncated(text@, max_chars as int),
{
    if text.len() <= max_chars {
        return text;
    }
    let v = chars_of(text);
    let n = v.len();
    let mut k: usize = 0;
    let mut off: usize = 0;
    assert(v@.take(0).len() == 0);
    while k < n && off < max_chars
        invariant
            v@ == text@,
            n == v@.len(),
            0 <= k <= n,
            off == text::utf8_len(v@.take(k as int)),
            text::utf8_len(v@) <= usize::MAX,
            starts_below(v@, max_chars as int, 0) == starts_below(v@, max_chars as int, k as int),
        decreases n - k,
    {
        proof {
            text::lemma_utf8_len_step(v@, k as int);
            text::lemma_utf8_len_prefix(v@, k + 1);
        }
        off = off + utf8_width(v[k]);
        k = k + 1;
    }
    let safe: usize = if k > 0 {
        k - 1
    } else {
        0
    };
    let mut p: usize = safe;
    while p > 0 && v[p - 1] != '\n'
        invariant
            p <= safe <= n,
            n == v@.len(),
            rfind_before(v@, '\n', safe as int) == rfind_before(v@, '\n', p as int),
        decreases p,
    {
        p = p - 1;
    }
    if p > 0 {
        text.substring_char(0, p - 1)
    } else {
        text.substring_char(0, safe)
    }
}


/// Where `starts_below` stops: not before `k`, not past the end, and every
/// character it passes over starts below `max` bytes.
pub proof fn lemma_starts_below(s: Seq<char>, max: int, k: int)
    requires
        0 <= k <= s.len(),
    ensures
        k <= starts_below(s, max, k) <= s.len(),
        starts_below(s, max, k) > k ==> text::utf8_len(s.take(starts_below(s, max, k) - 1)) < max,
    decreases s.len() - k,
{
    if !(k >= s.len() || text::utf8_len(s.take(k)) >= max) {
        lemma_starts_below(s, max, k + 1);
    }
}

/// `rfind_before` finds a position before `k`, or none.
pub proof fn lemma_rfind_before(s: Seq<char>, c: char, k: int)
    requires
        0 <= k <= s.len(),
    ensures
        -1 <= rfind_before(s, c, k) < k,
    decreases k,
{
    if k > 0 && s[k - 1] != c {
        lemma_rfind_before(s, c, k - 1);
    }
}

/// A longer prefix takes at least as many bytes.
pub proof fn lemma_utf8_len_monotone(s: Seq<char>, a: int, b: int)
    requires
        0 <= a <= b <= s.len(),
    ensures
        text::utf8_len(s.take(a)) <= text::utf8_len(s.take(b)),
{
    assert(s.take(b).take(a) == s.take(a));
    text::lemma_utf8_len_prefix(s.take(b), a);
}

/// Truncated content is a beginning of the content and takes at most
/// `max` bytes.
pub proof fn law_truncation_fits(s: Seq<char>, max: int)
    requires
        0 <= max,
    ensures
        truncated(s, max).len() <= s.len(),
        truncated(s, max) == s.take(truncated(s, max).len() as int),
        text::utf8_len(truncated(s, max)) <= max,
{
    if text::utf8_len(s) <= max {
        assert(s.take(s.len() as int) == s);
    } else {
        lemma_starts_below(s, max, 0);
        let n = starts_below(s, max, 0);
        let safe = if n > 0 {
            n - 1
        } else {
            0
        };
        lemma_rfind_before(s, '\n', safe);
        let p = rfind_before(s, '\n', safe);
        let cut = if p >= 0 {
            p
        } else {
            safe
        };
        assert(truncated(s, max) == s.take(cut));
        lemma_utf8_len_monotone(s, cut, safe);
        assert(s.take(0).len() == 0);
        assert(vstd::utf8::encode_utf8(Seq::<char>::empty()).len() == 0);
        assert(s.take(cut).take(cut) == s.take(cut));
    }
}

// ---------------------------------------------------------------------------
// Search queries and links
// ---------------------------------------------------------------------------
/// The queries that are not blank, in order.
pub open spec fn nonblank(qs: Seq<String>) -> Seq<String>
    decreases qs.len(),
{
    if qs.len() == 0 {
        Seq::empty()
    } else if text::is_blank(qs.last()@) {
        nonblank(qs.drop_last())
    } else {
        nonblank(qs.drop_last()).push(qs.last())
    }
}

/// Whether `s` is empty or all whitespace.
pub fn is_blank(s: &str) -> (r: bool)
    ensures
        r == text::is_blank(s@),
{
    let v = chars_of(s);
    let (a, b) = trim_bounds(&v);
    a == b
}

/// The search queries to run: the first ten the model proposed, without the
/// blank ones; an error when none is left.
pub fn select_search_queries(queries: Vec<String>) -> (r: Result<Vec<String>, AppError>)
    ensures
        ({
            let kept = nonblank(text::prefix_upto(queries@, 10));
            if kept.len() > 0 {
                r matches Ok(v) && v@ == kept
            } else {
                r matches Err(AppError::InternalServerError(m)) && m@
                    == "Groq returned no search queries"@
            }
        }),
{
    let mut kept: Vec<String> = Vec::new();
    let limit: usize = if queries.len() < 10 {
        queries.len()
    } else {
        10
    };
    let ghost first = text::prefix_upto(queries@, 10);
    assert(first == queries@.take(limit as int));
    let mut i: usize = 0;
    while i < limit
        invariant
            limit <= queries@.len(),
            0 <= i <= limit,
            first == queries@.take(limit as int),
            kept@ == nonblank(queries@.take(i as int)),
        decreases limit - i,
    {
        proof {
            assert(queries@.take(i + 1).drop_last() == queries@.take(i as int));
        }
        if !is_blank(queries[i].as_str()) {
            kept.push(queries[i].clone());
        }
        i = i + 1;
    }
    if kept.len() == 0 {
        return Err(AppError::InternalServerError(String::from_str("Groq returned no search queries")));
    }
    Ok(kept)
}

/// The `(title, link)` pairs of sources.
pub open spec fn source_pairs(v: Seq<RecipeSource>) -> Seq<(Seq<char>, Seq<char>)> {
    v.map_values(|s: RecipeSource| (s.title@, s.link@))
}

/// Up to three sources of each successful search, in order.
pub open spec fn candidate_links(rs: Seq<Result<RecipeSourcesResult, AppError>>) -> Seq<
    (Seq<char>, Seq<char>),
>
    decreases rs.len(),
{
    if rs.len() == 0 {
        Seq::empty()
    } else {
        match rs.last() {
            Ok(r) => candidate_links(rs.drop_last()) + text::prefix_upto(
                source_pairs(r.sources@),
                3,
            ),
            Err(_) => candidate_links(rs.drop_last()),
        }
    }
}

/// `c` without the entries whose link an earlier entry already has.
pub open spec fn dedup_links(c: Seq<(Seq<char>, Seq<char>)>) -> Seq<(Seq<char>, Seq<char>)>
    decreases c.len(),
{
    if c.len() == 0 {
        Seq::empty()
    } else {
        let d = dedup_links(c.drop_last());
        if exists|i: int| 0 <= i < d.len() && d[i].1 == c.last().1 {
            d
        } else {
            d.push(c.last())
        }
    }
}

/// The position of the first search that was rate limited, if any.
pub open spec fn first_rate_limited<T>(rs: Seq<Result<T, AppError>>) -> Option<int>
    decreases rs.len(),
{
    if rs.len() == 0 {
        None
    } else {
        match first_rate_limited(rs.drop_last()) {
            Some(i) => Some(i),
            None => if rs.last() matches Err(AppError::RateLimitError { .. }) {
                Some(rs.len() - 1)
            } else {
                None
            },
        }
    }
}

/// A rate-limit error the same as `e`.
pub open spec fn same_rate_limit(r: AppError, e: AppError) -> bool {
    &&& r is RateLimitError
    &&& e is RateLimitError
    &&& r.spec_message() == e.spec_message()
    &&& r->retry_after_minutes == e->retry_after_minutes
}

/// Whether `links` already holds an entry with this link.
fn has_link(links: &Vec<(String, String)>, link: &String) -> (r: bool)
    ensures
        r == exists|i: int| 0 <= i < links@.len() && links@[i].1@ == link@,
{
    let mut i: usize = 0;
    while i < links.len()
        invariant
            0 <= i <= links@.len(),
            forall|j: int| 0 <= j < i ==> links@[j].1@ != link@,
        decreases links@.len() - i,
    {
        if links[i].1 == *link {
            return true;
        }
        i = i + 1;
    }
    false
}

/// The view of a list of links.
pub open spec fn link_pairs(v: Seq<(String, String)>) -> Seq<(Seq<char>, Seq<char>)> {
    v.map_values(|p: (String, String)| (p.0@, p.1@))
}

/// The recipe links from the searches, in order: up to three per successful
/// search, each link once; a failed search is skipped, but a rate-limited
/// one ends the collection with its error.
pub fn merge_recipe_links(results: &Vec<Result<RecipeSourcesResult, AppError>>) -> (r: Result<
    Vec<(String, String)>,
    AppError,
>)
    ensures
        match first_rate_limited(results@) {
            Some(i) => r matches Err(e) && same_rate_limit(e, results@[i]->Err_0),
            None => r matches Ok(v) && link_pairs(v@) == dedup_links(candidate_links(results@)),
        },
{
    let mut links: Vec<(String, String)> = Vec::new();
    let mut i: usize = 0;
    assert(results@.take(0).len() == 0);
    while i < results.len()
        invariant
            0 <= i <= results@.len(),
            first_rate_limited(results@.take(i as int)) is None,
            link_pairs(links@) == dedup_links(candidate_links(results@.take(i as int))),
        decreases results@.len() - i,
    {
        proof {
            assert(results@.take(i + 1).drop_last() == results@.take(i as int));
            assert(results@.take(i + 1).last() == results@[i as int]);
        }
        match &results[i] {
            Err(e) => {
                if e.is_rate_limit() {
                    proof {
                        assert(first_rate_limited(results@.take(i + 1)) == Some(i as int));
                        lemma_first_rate_limited_extend(results@, i + 1);
                    }
                    return Err(e.duplicate());
                }
            },
            Ok(found) => {
                let sources = &found.sources;
                let lim: usize = if sources.len() < 3 {
                    sources.len()
                } else {
                    3
                };
                let ghost base = candidate_links(results@.take(i as int));
                let ghost pairs = source_pairs(sources@);
                assert(text::prefix_upto(pairs, 3) == pairs.take(lim as int));
                let mut j: usize = 0;
                assert(base + pairs.take(0) == base);
                while j < lim
                    invariant
                        lim <= sources@.len(),
                        0 <= j <= lim,
                        pairs == source_pairs(sources@),
                        link_pairs(links@) == dedup_links(base + pairs.take(j as int)),
                    decreases lim - j,
                {
                    let src = &sources[j];
                    let ghost before = links@;
                    proof {
                        let c = base + pairs.take(j + 1);
                        assert(c.drop_last() == base + pairs.take(j as int));
                        assert(c.last() == (src.title@, src.link@));
                    }
                    if !has_link(&links, &src.link) {
                        links.push((src.title.clone(), src.link.clone()));
                        proof {
                            assert(link_pairs(links@) == link_pairs(before).push(
                                (src.title@, src.link@),
                            ));
                            assert(!(exists|k: int|
                                0 <= k < link_pairs(before).len() && link_pairs(before)[k].1
                                    == src.link@));
                        }
                    } else {
                        proof {
                            let k = choose|k: int| 0 <= k < before.len() && before[k].1@ == src.link@;
                            assert(link_pairs(before)[k].1 == src.link@);
                        }
                    }
                    j = j + 1;
                }
            },
        }
        i = i + 1;
    }
    assert(results@.take(results@.len() as int) == results@);
    Ok(links)
}

/// No link is collected twice.
pub proof fn law_links_each_once(c: Seq<(Seq<char>, Seq<char>)>)
    ensures
        forall|i: int, j: int|
            0 <= i < j < dedup_links(c).len() ==> dedup_links(c)[i].1 != dedup_links(c)[j].1,
    decreases c.len(),
{
    if c.len() > 0 {
        law_links_each_once(c.drop_last());
        let d = dedup_links(c.drop_last());
        if !(exists|i: int| 0 <= i < d.len() && d[i].1 == c.last().1) {
            let e = d.push(c.last());
            assert forall|i: int, j: int| 0 <= i < j < e.len() implies e[i].1 != e[j].1 by {
                if j == d.len() {
                    assert(e[i] == d[i]);
                } else {
                    assert(e[i] == d[i] && e[j] == d[j]);
                }
            }
        }
    }
}

/// The queries kept are at most ten, none of them blank.
pub proof fn law_queries_at_most_ten(qs: Seq<String>)
    ensures
        nonblank(text::prefix_upto(qs, 10)).len() <= 10,
        forall|i: int|
            0 <= i < nonblank(text::prefix_upto(qs, 10)).len() ==> !text::is_blank(
                #[trigger] nonblank(text::prefix_upto(qs, 10))[i]@,
            ),
{
    lemma_nonblank_shape(text::prefix_upto(qs, 10));
}

/// Dropping blank queries keeps only non-blank ones and never adds any.
pub proof fn lemma_nonblank_shape(qs: Seq<String>)
    ensures
        nonblank(qs).len() <= qs.len(),
        forall|i: int| 0 <= i < nonblank(qs).len() ==> !text::is_blank(#[trigger] nonblank(qs)[i]@),
    decreases qs.len(),
{
    if qs.len() > 0 {
        lemma_nonblank_shape(qs.drop_last());
        let prev = nonblank(qs.drop_last());
        if !text::is_blank(qs.last()@) {
            let e = prev.push(qs.last());
            assert forall|i: int| 0 <= i < e.len() implies !text::is_blank(#[trigger] e[i]@) by {
                if i < prev.len() {
                    assert(e[i] == prev[i]);
                }
            }
        }
    }
}

/// Once a rate-limited search is found, later searches do not change which
/// one is first.
pub proof fn lemma_first_rate_limited_extend<T>(rs: Seq<Result<T, AppError>>, k: int)
    requires
        0 <= k <= rs.len(),
        first_rate_limited(rs.take(k)) is Some,
    ensures
        first_rate_limited(rs) == first_rate_limited(rs.take(k)),
    decreases rs.len() - k,
{
    if k < rs.len() {
        assert(rs.take(k + 1).drop_last() == rs.take(k));
        lemma_first_rate_limited_extend(rs, k + 1);
    } else {
        assert(rs.take(k) == rs);
    }
}

// ---------------------------------------------------------------------------
// Pages, parsed recipes, filtering and choice
// ---------------------------------------------------------------------------
/// A page fetched: its source title, address, real address and content.
pub open spec fn fetched_pages(
    links: Seq<(String, String)>,
    rs: Seq<Result<(String, String), AppError>>,
) -> Seq<(Seq<char>, Seq<char>, Seq<char>, Seq<char>)>
    decreases rs.len(),
{
    if rs.len() == 0 || links.len() < rs.len() {
        Seq::empty()
    } else {
        let rest = fetched_pages(links.take(rs.len() - 1), rs.drop_last());
        match rs.last() {
            Ok((md, real_url)) => rest.push(
                (links[rs.len() - 1].0@, links[rs.len() - 1].1@, real_url@, md@),
            ),
            Err(_) => rest,
        }
    }
}

/// The view of fetched pages.
pub open spec fn page_views(v: Seq<(String, String, String, String)>) -> Seq<
    (Seq<char>, Seq<char>, Seq<char>, Seq<char>),
> {
    v.map_values(|p: (String, String, String, String)| (p.0@, p.1@, p.2@, p.3@))
}

/// The pages that could be fetched, each with its source title, address,
/// real address and content; failed fetches are skipped.
pub fn successful_pages(
    links: &Vec<(String, String)>,
    results: &Vec<Result<(String, String), AppError>>,
) -> (r: Vec<(String, String, String, String)>)
    requires
        links@.len() == results@.len(),
    ensures
        page_views(r@) == fetched_pages(links@, results@),
{
    let mut pages: Vec<(String, String, String, String)> = Vec::new();
    let mut i: usize = 0;
    while i < results.len()
        invariant
            links@.len() == results@.len(),
            0 <= i <= results@.len(),
            page_views(pages@) == fetched_pages(links@.take(i as int), results@.take(i as int)),
        decreases results@.len() - i,
    {
        proof {
            let rs = results@.take(i + 1);
            let ls = links@.take(i + 1);
            assert(rs.drop_last() == results@.take(i as int));
            assert(ls.take(i as int) == links@.take(i as int));
            assert(rs.last() == results@[i as int]);
            assert(ls[i as int] == links@[i as int]);
        }
        match &results[i] {
            Ok((md, real_url)) => {
                let ghost before = pages@;
                pages.push((links[i].0.clone(), links[i].1.clone(), real_url.clone(), md.clone()));
                proof {
                    assert(page_views(pages@) == page_views(before).push(
                        (links@[i as int].0@, links@[i as int].1@, real_url@, md@),
                    ));
                }
            },
            Err(_) => {},
        }
        i = i + 1;
    }
    assert(results@.take(results@.len() as int) == results@);
    assert(links@.take(links@.len() as int) == links@);
    pages
}

/// What parsing one page gave: a recipe, or nothing; and the rate-limit
/// error that stopped it, if any.
pub struct PageParseResult {
    pub recipe: Option<ParsedRecipe>,
    pub rate_limit_err: Option<AppError>,
}

/// The recipes of the parse results, in order.
pub open spec fn parsed_recipes(rs: Seq<PageParseResult>) -> Seq<ParsedRecipe>
    decreases rs.len(),
{
    if rs.len() == 0 {
        Seq::empty()
    } else {
        match rs.last().recipe {
            Some(p) => parsed_recipes(rs.drop_last()).push(p),
            None => parsed_recipes(rs.drop_last()),
        }
    }
}

/// The position of the first result that hit a rate limit.
pub open spec fn first_parse_error(rs: Seq<PageParseResult>) -> Option<int>
    decreases rs.len(),
{
    if rs.len() == 0 {
        None
    } else {
        match first_parse_error(rs.drop_last()) {
            Some(i) => Some(i),
            None => if rs.last().rate_limit_err is Some {
                Some(rs.len() - 1)
            } else {
                None
            },
        }
    }
}

pub proof fn lemma_first_parse_error_extend(rs: Seq<PageParseResult>, k: int)
    requires
        0 <= k <= rs.len(),
        first_parse_error(rs.take(k)) is Some,
    ensures
        first_parse_error(rs) == first_parse_error(rs.take(k)),
    decreases rs.len() - k,
{
    if k < rs.len() {
        assert(rs.take(k + 1).drop_last() == rs.take(k));
        lemma_first_parse_error_extend(rs, k + 1);
    } else {
        assert(rs.take(k) == rs);
    }
}

/// The recipes parsed from the pages, in order, unless a page hit a rate
/// limit: then the first such error.
pub fn collect_parsed_recipes(results: Vec<PageParseResult>) -> (r: Result<
    Vec<ParsedRecipe>,
    AppError,
>)
    ensures
        match first_parse_error(results@) {
            Some(i) => r matches Err(e) && results@[i].rate_limit_err == Some(e),
            None => r matches Ok(v) && v@ == parsed_recipes(results@),
        },
{
    let ghost all = results@;
    let mut recipes: Vec<ParsedRecipe> = Vec::new();
    let mut i: usize = 0;
    let n: usize = results.len();
    for res in it: results.into_iter()
        invariant
            it.seq() == all,
            all.len() == n,
            i == it.index(),
            first_parse_error(all.take(i as int)) is None,
            recipes@ == parsed_recipes(all.take(i as int)),
    {
        proof {
            assert(res == all[i as int]);
            assert(all.take(i + 1).drop_last() == all.take(i as int));
            assert(all.take(i + 1).last() == all[i as int]);
        }
        if let Some(e) = res.rate_limit_err {
            proof {
                assert(first_parse_error(all.take(i + 1)) == Some(i as int));
                lemma_first_parse_error_extend(all, i + 1);
            }
            return Err(e);
        }
        if let Some(recipe) = res.recipe {
            recipes.push(recipe);
        }
        i = i + 1;
    }
    assert(all.take(i as int) == all);
    Ok(recipes)
}

/// The recipes are judged against the user's equipment in batches of ten.
pub const FILTER_BATCH_SIZE: usize = 10;

/// The keep decision of the equipment filter for one recipe of a batch.
pub struct RecipeKeepDecision {
    pub index: usize,
    pub keep: bool,
}

/// Whether one of the decisions keeps the recipe at position `x`, the
/// decisions' indices counting from `offset`.
pub open spec fn decided_keep(ds: Seq<RecipeKeepDecision>, offset: int, x: int) -> bool
    decreases ds.len(),
{
    if ds.len() == 0 {
        false
    } else {
        decided_keep(ds.drop_last(), offset, x) || (ds.last().keep && offset + ds.last().index
            == x)
    }
}

/// Whether recipe `i` survives the equipment filter: some batch kept it by
/// its position in that batch, or the batch it belongs to could not be
/// judged (for any reason but a rate limit).
pub open spec fn kept_by_filter(
    batches: Seq<Result<Vec<RecipeKeepDecision>, AppError>>,
    i: int,
) -> bool {
    exists|b: int|
        0 <= b < batches.len() && match #[trigger] batches[b] {
            Ok(ds) => decided_keep(ds@, b * 10, i),
            Err(e) => !(e is RateLimitError) && b * 10 <= i < b * 10 + 10,
        }
}

/// One decision, as the filter reads it: a kept decision with index `k` in
/// the batch at `b` (batches of ten) keeps recipe `b * 10 + k`.
pub proof fn law_keep_decision_reaches_its_recipe(
    batches: Seq<Result<Vec<RecipeKeepDecision>, AppError>>,
    b: int,
    k: int,
)
    requires
        0 <= b < batches.len(),
        batches[b] is Ok,
        0 <= k < batches[b]->Ok_0@.len(),
        batches[b]->Ok_0@[k].keep,
    ensures
        kept_by_filter(batches, b * 10 + batches[b]->Ok_0@[k].index),
{
    let ds = batches[b]->Ok_0@;
    lemma_decided_keep_of(ds, b * 10, k);
    assert(match batches[b] {
        Ok(d) => decided_keep(d@, b * 10, b * 10 + ds[k].index),
        Err(e) => !(e is RateLimitError) && b * 10 <= b * 10 + ds[k].index < b * 10 + 10,
    });
}

/// A recipe survives the filter only when a kept decision of some batch at
/// `b` has index `x - b * 10`, or the batch at `b` failed (not for a rate
/// limit) and `x` is one of its ten positions.
pub proof fn law_only_kept_recipes_survive(batches: Seq<Result<Vec<RecipeKeepDecision>, AppError>>, x: int)
    requires
        kept_by_filter(batches, x),
    ensures
        exists|b: int|
            0 <= b < batches.len() && match #[trigger] batches[b] {
                Ok(ds) => exists|k: int| 0 <= k < ds@.len() && #[trigger] ds@[k].keep && b * 10 + ds@[k].index == x,
                Err(e) => !(e is RateLimitError) && b * 10 <= x < b * 10 + 10,
            },
{
    let b = choose|b: int|
        0 <= b < batches.len() && match #[trigger] batches[b] {
            Ok(ds) => decided_keep(ds@, b * 10, x),
            Err(e) => !(e is RateLimitError) && b * 10 <= x < b * 10 + 10,
        };
    match batches[b] {
        Ok(ds) => {
            let k = lemma_decided_keep_witness(ds@, b * 10, x);
            assert(ds@[k].keep);
        },
        Err(_) => {},
    }
}

/// A kept decision at position `k` keeps the recipe its index names.
proof fn lemma_decided_keep_of(ds: Seq<RecipeKeepDecision>, offset: int, k: int)
    requires
        0 <= k < ds.len(),
        ds[k].keep,
    ensures
        decided_keep(ds, offset, offset + ds[k].index),
    decreases ds.len(),
{
    if k < ds.len() - 1 {
        lemma_decided_keep_of(ds.drop_last(), offset, k);
        assert(ds.drop_last()[k] == ds[k]);
    }
}

/// A recipe some decision keeps has a kept decision naming it.
proof fn lemma_decided_keep_witness(ds: Seq<RecipeKeepDecision>, offset: int, x: int) -> (k: int)
    requires
        decided_keep(ds, offset, x),
    ensures
        0 <= k < ds.len(),
        ds[k].keep,
        offset + ds[k].index == x,
    decreases ds.len(),
{
    if ds.last().keep && offset + ds.last().index == x {
        (ds.len() - 1) as int
    } else {
        let k = lemma_decided_keep_witness(ds.drop_last(), offset, x);
        assert(ds.drop_last()[k] == ds[k]);
        k
    }
}

/// Which of `n` recipes survive the equipment filter, given the answer for
/// each batch; a rate-limited batch ends the filtering with its error.
pub fn keep_mask(n: usize, batches: &Vec<Result<Vec<RecipeKeepDecision>, AppError>>) -> (r: Result<
    Vec<bool>,
    AppError,
>)
    requires
        batches@.len() * 10 <= usize::MAX,
        forall|b: int, k: int|
            0 <= b < batches@.len() && batches@[b] is Ok && 0 <= k < batches@[b]->Ok_0@.len()
                ==> b * 10 + (#[trigger] batches@[b]->Ok_0@[k]).index <= usize::MAX,
    ensures
        match first_rate_limited(batches@) {
            Some(b) => r matches Err(e) && same_rate_limit(e, batches@[b]->Err_0),
            None => r matches Ok(mask) && mask@.len() == n && forall|i: int|
                0 <= i < n ==> mask@[i] == kept_by_filter(batches@, i),
        },
{
    let mut mask: Vec<bool> = Vec::new();
    let mut z: usize = 0;
    while z < n
        invariant
            0 <= z <= n,
            mask@.len() == z,
            forall|i: int| 0 <= i < z ==> !mask@[i],
        decreases n - z,
    {
        mask.push(false);
        z = z + 1;
    }
    let mut b: usize = 0;
    while b < batches.len()
        invariant
            0 <= b <= batches@.len(),
            batches@.len() * 10 <= usize::MAX,
            forall|bb: int, k: int|
                0 <= bb < batches@.len() && batches@[bb] is Ok && 0 <= k < batches@[bb]->Ok_0@.len()
                    ==> bb * 10 + (#[trigger] batches@[bb]->Ok_0@[k]).index <= usize::MAX,
            first_rate_limited(batches@.take(b as int)) is None,
            mask@.len() == n,
            forall|i: int| 0 <= i < n ==> mask@[i] == kept_by_filter(batches@.take(b as int), i),
        decreases batches@.len() - b,
    {
        proof {
            assert(b * 10 + 10 <= batches@.len() * 10) by (nonlinear_arith)
                requires
                    b < batches@.len(),
            ;
        }
        let offset: usize = b * 10;
        let ghost prev = batches@.take(b as int);
        let ghost next = batches@.take(b + 1);
        proof {
            assert(next.drop_last() == prev);
            assert(next.last() == batches@[b as int]);
        }
        match &batches[b] {
            Err(e) => {
                if e.is_rate_limit() {
                    proof {
                        assert(first_rate_limited(next) == Some(b as int));
                        lemma_first_rate_limited_extend(batches@, b + 1);
                    }
                    return Err(e.duplicate());
                }
                let mut i: usize = offset;
                while i < n && i - offset < 10
                    invariant
                        offset == b * 10,
                        offset <= i,
                        i - offset <= 10,
                        mask@.len() == n,
                        forall|x: int|
                            0 <= x < n ==> mask@[x] == (kept_by_filter(prev, x) || (offset <= x
                                < i)),
                    decreases n - i,
                {
                    mask.set(i, true);
                    i = i + 1;
                }
                proof {
                    assert forall|x: int| 0 <= x < n implies mask@[x] == kept_by_filter(next, x) by {
                        if kept_by_filter(prev, x) {
                            let bb = choose|bb: int|
                                0 <= bb < prev.len() && match #[trigger] prev[bb] {
                                    Ok(ds) => decided_keep(ds@, bb * 10, x),
                                    Err(e) => !(e is RateLimitError) && bb * 10 <= x < bb * 10 + 10,
                                };
                            assert(next[bb] == prev[bb]);
                        }
                        if offset <= x < offset + 10 {
                            assert(next[b as int] == batches@[b as int]);
                        }
                        if kept_by_filter(next, x) {
                            let bb = choose|bb: int|
                                0 <= bb < next.len() && match #[trigger] next[bb] {
                                    Ok(ds) => decided_keep(ds@, bb * 10, x),
                                    Err(e) => !(e is RateLimitError) && bb * 10 <= x < bb * 10 + 10,
                                };
                            if bb < b {
                                assert(prev[bb] == next[bb]);
                            }
                        }
                    }
                }
            },
            Ok(decisions) => {
                let mut k: usize = 0;
                while k < decisions.len()
                    invariant
                        offset == b * 10,
                        0 <= k <= decisions@.len(),
                        mask@.len() == n,
                        forall|kk: int|
                            0 <= kk < decisions@.len() ==> offset + (#[trigger] decisions@[kk]).index
                                <= usize::MAX,
                        forall|x: int|
                            0 <= x < n ==> #[trigger] mask@[x] == (kept_by_filter(prev, x) || decided_keep(
                                decisions@.take(k as int),
                                offset as int,
                                x,
                            )),
                    decreases decisions@.len() - k,
                {
                    let d = &decisions[k];
                    let ghost old_mask = mask@;
                    let ghost old_k = k as int;
                    if d.keep {
                        let idx = offset + d.index;
                        if idx < n {
                            mask.set(idx, true);
                        }
                    }
                    k = k + 1;
                    proof {
                        assert forall|x: int| 0 <= x < n implies mask@[x] == (kept_by_filter(prev, x)
                            || decided_keep(decisions@.take(k as int), offset as int, x)) by {
                            let t = decisions@.take(k as int);
                            assert(t.drop_last() == decisions@.take(old_k));
                            assert(t.last() == decisions@[old_k]);
                            assert(*d == decisions@[old_k]);
                            assert(decided_keep(t, offset as int, x) == (decided_keep(
                                decisions@.take(old_k),
                                offset as int,
                                x,
                            ) || (d.keep && offset + d.index == x)));
                            assert(old_mask[x] == (kept_by_filter(prev, x) || decided_keep(
                                decisions@.take(old_k),
                                offset as int,
                                x,
                            )));
                            if !(d.keep && offset + d.index == x) {
                                assert(mask@[x] == old_mask[x]);
                            }
                        }
                    }
                }
                assert(decisions@.take(decisions@.len() as int) == decisions@);
                proof {
                    assert forall|x: int| 0 <= x < n implies mask@[x] == kept_by_filter(next, x) by {
                        if kept_by_filter(prev, x) {
                            let bb = choose|bb: int|
                                0 <= bb < prev.len() && match #[trigger] prev[bb] {
                                    Ok(ds) => decided_keep(ds@, bb * 10, x),
                                    Err(e) => !(e is RateLimitError) && bb * 10 <= x < bb * 10 + 10,
                                };
                            assert(next[bb] == prev[bb]);
                        }
                        if decided_keep(decisions@, offset as int, x) {
                            assert(next[b as int] == batches@[b as int]);
                        }
                        if kept_by_filter(next, x) {
                            let bb = choose|bb: int|
                                0 <= bb < next.len() && match #[trigger] next[bb] {
                                    Ok(ds) => decided_keep(ds@, bb * 10, x),
                                    Err(e) => !(e is RateLimitError) && bb * 10 <= x < bb * 10 + 10,
                                };
                            if bb < b {
                                assert(prev[bb] == next[bb]);
                            }
                        }
                    }
                }
            },
        }
        b = b + 1;
    }
    assert(batches@.take(batches@.len() as int) == batches@);
    Ok(mask)
}

/// The recipes whose mask entry is set, in order.
pub open spec fn masked(rs: Seq<ParsedRecipe>, mask: Seq<bool>) -> Seq<ParsedRecipe>
    decreases rs.len(),
{
    if rs.len() == 0 {
        Seq::empty()
    } else if mask[rs.len() - 1] {
        masked(rs.drop_last(), mask).push(rs.last())
    } else {
        masked(rs.drop_last(), mask)
    }
}

/// Keeps the recipes that survived the filter, in order.
pub fn apply_keep_mask(recipes: Vec<ParsedRecipe>, mask: &Vec<bool>) -> (r: Vec<ParsedRecipe>)
    requires
        mask@.len() == recipes@.len(),
    ensures
        r@ == masked(recipes@, mask@),
{
    let ghost all = recipes@;
    let mut kept: Vec<ParsedRecipe> = Vec::new();
    let mut i: usize = 0;
    let n: usize = recipes.len();
    for rec in it: recipes.into_iter()
        invariant
            it.seq() == all,
            all.len() == n,
            i == it.index(),
            mask@.len() == all.len(),
            kept@ == masked(all.take(i as int), mask@),
    {
        proof {
            assert(rec == all[i as int]);
            assert(all.take(i + 1).drop_last() == all.take(i as int));
            assert(all.take(i + 1).last() == all[i as int]);
        }
        if mask[i] {
            kept.push(rec);
        }
        i = i + 1;
    }
    assert(all.take(i as int) == all);
    kept
}

/// The recipe the model chose, its index capped to the last recipe.
pub fn pick_best(recipes: Vec<ParsedRecipe>, best_index: usize) -> (r: ParsedRecipe)
    requires
        recipes@.len() > 0,
    ensures
        r == recipes@[if best_index < recipes@.len() - 1 {
            best_index as int
        } else {
            recipes@.len() - 1
        }],
{
    let last = recipes.len() - 1;
    let i = if best_index < last {
        best_index
    } else {
        last
    };
    let mut rs = recipes;
    rs.swap_remove(i)
}

/// The job status a failed search ends in: rate limited with the error's
/// message and wait, or failed with the error's text.
pub fn failure_status(e: AppError) -> (r: JobStatus)
    ensures
        match e {
            AppError::RateLimitError { message, retry_after_minutes } => r matches JobStatus::RateLimited {
                message: m,
                retry_after_minutes: w,
            } && m@ == message@ && w == retry_after_minutes,
            _ => r matches JobStatus::Failed(t) && t@ == e.spec_display(),
        },
{
    let text = e.to_string();
    match e {
        AppError::RateLimitError { message, retry_after_minutes } => JobStatus::RateLimited {
            message,
            retry_after_minutes,
        },
        _ => JobStatus::Failed(text),
    }
}


// ---------------------------------------------------------------------------
// One page: classification, then extraction
// ---------------------------------------------------------------------------
/// What a page's classification means for it: `None` when the page is one
/// actual recipe and goes on to extraction; otherwise the page's final
/// result. A rate-limited classification stops the search with its error;
/// any other failure, and a page that is not exactly one recipe, is skipped.
pub fn classification_verdict(check: Result<PageClassification, AppError>) -> (r: Option<
    PageParseResult,
>)
    ensures
        match check {
            Ok(c) => if c.is_actual_recipe && c.is_single_recipe {
                r is None
            } else {
                r matches Some(p) && p.recipe is None && p.rate_limit_err is None
            },
            Err(e) => if e is RateLimitError {
                r == Some(PageParseResult { recipe: None, rate_limit_err: Some(e) })
            } else {
                r matches Some(p) && p.recipe is None && p.rate_limit_err is None
            },
        },
{
    match check {
        Ok(c) => if c.is_actual_recipe && c.is_single_recipe {
            None
        } else {
            Some(PageParseResult { recipe: None, rate_limit_err: None })
        },
        Err(e) => if e.is_rate_limit() {
            Some(PageParseResult { recipe: None, rate_limit_err: Some(e) })
        } else {
            Some(PageParseResult { recipe: None, rate_limit_err: None })
        },
    }
}

/// A recipe as the model copied it from a page.
pub struct ParsedRecipeRaw {
    pub title: String,
    pub description: Option<String>,
    pub ingredients: Vec<String>,
    pub instructions: Vec<String>,
    pub cooking_time_minutes: Option<u32>,
    pub servings: Option<u32>,
    pub difficulty: Option<String>,
    pub equipment: Vec<EquipmentItem>,
    pub photo_url: Option<String>,
}

/// The result of extracting the recipe of a page found at `source_url`
/// under `source_title`: the recipe with its source; nothing when the
/// extraction failed, and the error too when it was rate limited.
pub fn extraction_result(
    parse: Result<ParsedRecipeRaw, AppError>,
    source_title: &str,
    source_url: &str,
) -> (r: PageParseResult)
    ensures
        match parse {
            Ok(raw) => r.rate_limit_err is None && r.recipe == Some(
                ParsedRecipe {
                    title: raw.title,
                    description: raw.description,
                    ingredients: raw.ingredients,
                    instructions: raw.instructions,
                    cooking_time_minutes: raw.cooking_time_minutes,
                    servings: raw.servings,
                    difficulty: raw.difficulty,
                    equipment: raw.equipment,
                    photo_url: raw.photo_url,
                    source_url: r.recipe->0.source_url,
                    source_title: r.recipe->0.source_title,
                },
            ) && r.recipe->0.source_url@ == source_url@ && r.recipe->0.source_title@
                == source_title@,
            Err(e) => r.recipe is None && (if e is RateLimitError {
                r.rate_limit_err == Some(e)
            } else {
                r.rate_limit_err is None
            }),
        },
{
    match parse {
        Ok(raw) => PageParseResult {
            recipe: Some(
                ParsedRecipe {
                    title: raw.title,
                    description: raw.description,
                    ingredients: raw.ingredients,
                    instructions: raw.instructions,
                    cooking_time_minutes: raw.cooking_time_minutes,
                    servings: raw.servings,
                    difficulty: raw.difficulty,
                    equipment: raw.equipment,
                    photo_url: raw.photo_url,
                    source_url: String::from_str(source_url),
                    source_title: String::from_str(source_title),
                },
            ),
            rate_limit_err: None,
        },
        Err(e) => if e.is_rate_limit() {
            PageParseResult { recipe: None, rate_limit_err: Some(e) }
        } else {
            PageParseResult { recipe: None, rate_limit_err: None }
        },
    }
}

/// The page text given to the model is cut to this many bytes.
pub const PAGE_TEXT_LIMIT: usize = 20_000;

// ---------------------------------------------------------------------------
// The stages of a search
// ---------------------------------------------------------------------------
/// The stages of a recipe search, in order.
#[derive(Clone, Copy, Debug, PartialEq, Eq, Structural)]
pub enum SearchStage {
    BuildQueries,
    CollectLinks,
    FetchPages,
    ParsePages,
    FilterByAppliances,
    SelectBest,
    Adapt,
}

/// The progress shown when a stage starts.
pub open spec fn stage_progress(stage: SearchStage) -> u8 {
    match stage {
        SearchStage::BuildQueries => 5,
        SearchStage::CollectLinks => 15,
        SearchStage::FetchPages => 35,
        SearchStage::ParsePages => 50,
        SearchStage::FilterByAppliances => 65,
        SearchStage::SelectBest => 80,
        SearchStage::Adapt => 95,
    }
}

/// The position of a stage in the search.
pub open spec fn stage_index(stage: SearchStage) -> int {
    match stage {
        SearchStage::BuildQueries => 0,
        SearchStage::CollectLinks => 1,
        SearchStage::FetchPages => 2,
        SearchStage::ParsePages => 3,
        SearchStage::FilterByAppliances => 4,
        SearchStage::SelectBest => 5,
        SearchStage::Adapt => 6,
    }
}

impl SearchStage {
    /// The progress shown when the stage starts.
    pub fn progress(&self) -> (r: u8)
        ensures
            r == stage_progress(*self),
    {
        match self {
            SearchStage::BuildQueries => 5,
            SearchStage::CollectLinks => 15,
            SearchStage::FetchPages => 35,
            SearchStage::ParsePages => 50,
            SearchStage::FilterByAppliances => 65,
            SearchStage::SelectBest => 80,
            SearchStage::Adapt => 95,
        }
    }
}

/// The progress of a search only grows from stage to stage, and stays
/// below the 100 of a finished job.
pub proof fn law_stage_progress_increases(a: SearchStage, b: SearchStage)
    requires
        stage_index(a) < stage_index(b),
    ensures
        stage_progress(a) < stage_progress(b) < 100,
{
}

/// What a stage must have produced for the search to go on, and the message
/// when it produced nothing: links, fetched pages, parsed recipes, and
/// recipes left by the equipment filter.
pub open spec fn nothing_found_message(stage: SearchStage) -> Option<Seq<char>> {
    match stage {
        SearchStage::CollectLinks => Some("No recipe links found for your query"@),
        SearchStage::FetchPages => Some("Could not fetch any recipe pages"@),
        SearchStage::ParsePages => Some("No valid single-recipe pages found"@),
        SearchStage::FilterByAppliances => Some("No recipes match your available kitchen tools"@),
        _ => None,
    }
}

/// After a stage produced `count` items, the search goes on unless the stage
/// must produce something and produced nothing: then it fails with the
/// stage's message.
pub fn ensure_found(stage: SearchStage, count: usize) -> (r: Result<(), AppError>)
    ensures
        (count == 0 && nothing_found_message(stage) is Some) ==> (r matches Err(
            AppError::InternalServerError(m),
        ) && m@ == nothing_found_message(stage)->0),
        !(count == 0 && nothing_found_message(stage) is Some) ==> r is Ok,
{
    if count > 0 {
        return Ok(());
    }
    match stage {
        SearchStage::CollectLinks => Err(
            AppError::InternalServerError(String::from_str("No recipe links found for your query")),
        ),
        SearchStage::FetchPages => Err(
            AppError::InternalServerError(String::from_str("Could not fetch any recipe pages")),
        ),
        SearchStage::ParsePages => Err(
            AppError::InternalServerError(String::from_str("No valid single-recipe pages found")),
        ),
        SearchStage::FilterByAppliances => Err(
            AppError::InternalServerError(
                String::from_str("No recipes match your available kitchen tools"),
            ),
        ),
        _ => Ok(()),
    }
}

/// The position of the appliance the user asked to cook with: the first
/// whose id, read as unsigned, is the requested one.
pub fn preferred_appliance(appliances: &Vec<ApplianceRow>, kitchen_appliances_id: u32) -> (r:
    Option<usize>)
    ensures
        match r {
            Some(i) => i < appliances@.len() && appliances@[i as int].id as u32
                == kitchen_appliances_id && forall|k: int|
                0 <= k < i ==> #[trigger] appliances@[k].id as u32 != kitchen_appliances_id,
            None => forall|k: int|
                0 <= k < appliances@.len() ==> #[trigger] appliances@[k].id as u32
                    != kitchen_appliances_id,
        },
{
    let mut i: usize = 0;
    while i < appliances.len()
        invariant
            0 <= i <= appliances@.len(),
            forall|k: int|
                0 <= k < i ==> #[trigger] appliances@[k].id as u32 != kitchen_appliances_id,
        decreases appliances@.len() - i,
    {
        if appliances[i].id as u32 == kitchen_appliances_id {
            return Some(i);
        }
        i = i + 1;
    }
    None
}

/// A choice among several recipes is asked of the model only when there is
/// more than one.
pub fn needs_ranking(count: usize) -> (r: bool)
    ensures
        r == (count != 1),
{
    count != 1
}

/// `items` joined with `, `.
pub open spec fn joined(items: Seq<Seq<char>>) -> Seq<char>
    decreases items.len(),
{
    if items.len() == 0 {
        Seq::empty()
    } else if items.len() == 1 {
        items[0]
    } else {
        joined(items.drop_last()) + ", "@ + items.last()
    }
}

/// The names joined with `, `, as the prompts list them.
pub fn join_names(names: &Vec<String>) -> (r: String)
    ensures
        r@ == joined(names@.map_values(|n: String| n@)),
{
    let mut buf: Vec<char> = Vec::new();
    let mut i: usize = 0;
    while i < names.len()
        invariant
            0 <= i <= names@.len(),
            buf@ == joined(names@.take(i as int).map_values(|n: String| n@)),
        decreases names@.len() - i,
    {
        proof {
            let w = names@.take(i + 1).map_values(|n: String| n@);
            assert(w.drop_last() == names@.take(i as int).map_values(|n: String| n@));
            assert(w.last() == names@[i as int]@);
            if i == 0 {
                assert(w[0] == names@[0]@);
            }
        }
        if i > 0 {
            push_str(&mut buf, ", ");
        }
        push_str(&mut buf, names[i].as_str());
        i = i + 1;
    }
    assert(names@.take(names@.len() as int) == names@);
    string_from_chars(&buf)
}

/// The equipment list of a prompt: the names joined, or "none specified"
/// when there are none.
pub fn list_or_none_specified(names: &Vec<String>) -> (r: String)
    ensures
        names@.len() == 0 ==> r@ == "none specified"@,
        names@.len() > 0 ==> r@ == joined(names@.map_values(|n: String| n@)),
{
    if names.len() == 0 {
        String::from_str("none specified")
    } else {
        join_names(names)
    }
}

/// An optional profile text, or the fallback the prompts use without it.
pub fn text_or(value: Option<&str>, fallback: &str) -> (r: String)
    ensures
        match value {
            Some(v) => r@ == v@,
            None => r@ == fallback@,
        },
{
    match value {
        Some(v) => String::from_str(v),
        None => String::from_str(fallback),
    }
}


/// How an appliance or piece of cookware is described to the model: its
/// name, with its description in parentheses when it has one.
pub fn name_with_description(name: &str, description: Option<&str>) -> (r: String)
    ensures
        match description {
            Some(d) => r@ == name@ + " ("@ + d@ + ")"@,
            None => r@ == name@,
        },
{
    match description {
        Some(d) => {
            let mut buf: Vec<char> = Vec::new();
            push_str(&mut buf, name);
            push_str(&mut buf, " (");
            push_str(&mut buf, d);
            push_str(&mut buf, ")");
            string_from_chars(&buf)
        },
        None => String::from_str(name),
    }
}

} // verus!
