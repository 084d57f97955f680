//! The decisions of the cooking-profile handlers: whose request it is, the
//! checks on an uploaded CSV file, which barcodes the file holds, and what a
//! status query about an import job answers.
//!
//! The caller reads the multipart upload chunk by chunk and talks to the
//! database; it hands each piece to the checks here.
use vstd::prelude::*;
use crate::error::{prefixed, AppError};
use crate::job_store::{has_active, JobStore};
use crate::middleware::auth::AuthenticatedUser;
use crate::models::barcode_import::{reports, ImportJobResponse};
use crate::text::{self, chars_of, contains_str, same_text, string_from_chars, trim_chars};

verus! {

/// The id of the authenticated user of a request, which the authentication
/// step attached to it.
pub fn extract_user_id(user: Option<&AuthenticatedUser>) -> (r: Result<i32, AppError>)
    ensures
        match user {
            Some(u) => r matches Ok(id) && id == u.user_id,
            None => r matches Err(AppError::Unauthorized(m)) && m@ == "Missing user identity"@,
        },
{
    match user {
        Some(u) => Ok(u.user_id),
        None => Err(AppError::Unauthorized(String::from_str("Missing user identity"))),
    }
}

/// A user may run one background job at a time: while one is pending or
/// processing, a new request is refused as rate limited for a minute.
pub fn ensure_no_active_job(store: &JobStore, user_id: i32) -> (r: Result<(), AppError>)
    ensures
        has_active(store@, user_id) ==> (r matches Err(
            AppError::RateLimitError { message, retry_after_minutes },
        ) && message@ == "Wait your last task"@ && retry_after_minutes == 1),
        !has_active(store@, user_id) ==> r is Ok,
{
    if store.has_active_job(user_id) {
        Err(
            AppError::RateLimitError {
                message: String::from_str("Wait your last task"),
                retry_after_minutes: 1,
            },
        )
    } else {
        Ok(())
    }
}

// ---------------------------------------------------------------------------
// The upload
// ---------------------------------------------------------------------------
/// The largest CSV file accepted: one megabyte.
pub const MAX_CSV_BYTES: usize = 1024 * 1024;

/// Whether a multipart field is the one that carries the file: its name is
/// `file`.
pub fn is_file_field(name: Option<&str>) -> (r: bool)
    ensures
        r == (name matches Some(n) && n@ == "file"@),
{
    match name {
        Some(n) => same_text(n, "file"),
        None => false,
    }
}

/// The file's declared type, when there is one, must speak of CSV or plain
/// text.
pub fn check_content_type(mime: Option<&str>) -> (r: Result<(), AppError>)
    ensures
        match mime {
            Some(m) => if !text::contains_seq(m@, "csv"@) && !text::contains_seq(m@, "text/plain"@) {
                r matches Err(AppError::BadRequest(msg)) && msg@ == "Only CSV files are accepted"@
            } else {
                r is Ok
            },
            None => r is Ok,
        },
{
    match mime {
        Some(m) => {
            let v = chars_of(m);
            if !contains_str(&v, "csv") && !contains_str(&v, "text/plain") {
                Err(AppError::BadRequest(String::from_str("Only CSV files are accepted")))
            } else {
                Ok(())
            }
        },
        None => Ok(()),
    }
}

/// Appends a chunk of the upload to what was read so far; once the file is
/// larger than the limit, the upload is refused.
pub fn append_chunk(buf: &mut Vec<u8>, chunk: &[u8]) -> (r: Result<(), AppError>)
    requires
        old(buf)@.len() + chunk@.len() <= usize::MAX,
    ensures
        final(buf)@ == old(buf)@ + chunk@,
        final(buf)@.len() <= MAX_CSV_BYTES ==> r is Ok,
        final(buf)@.len() > MAX_CSV_BYTES ==> (r matches Err(AppError::BadRequest(m)) && m@
            == "File exceeds 1 MB limit"@),
{
    let ghost start = buf@;
    let mut i: usize = 0;
    while i < chunk.len()
        invariant
            0 <= i <= chunk@.len(),
            buf@ == start + chunk@.take(i as int),
        decreases chunk@.len() - i,
    {
        buf.push(chunk[i]);
        i = i + 1;
        assert(chunk@.take(i as int) == chunk@.take(i - 1).push(chunk@[i - 1]));
    }
    assert(chunk@.take(chunk@.len() as int) == chunk@);
    if buf.len() > MAX_CSV_BYTES {
        Err(AppError::BadRequest(String::from_str("File exceeds 1 MB limit")))
    } else {
        Ok(())
    }
}

/// An upload is usable only if the file field came and held something.
pub fn require_csv_upload(found_file: bool, bytes: &Vec<u8>) -> (r: Result<(), AppError>)
    ensures
        (found_file && bytes@.len() > 0) ==> r is Ok,
        !(found_file && bytes@.len() > 0) ==> (r matches Err(AppError::BadRequest(m)) && m@
            == "No CSV file provided in 'file' field"@),
{
    if !found_file || bytes.len() == 0 {
        Err(AppError::BadRequest(String::from_str("No CSV file provided in 'file' field")))
    } else {
        Ok(())
    }
}

/// The error for a multipart stream that could not be read.
pub fn multipart_error(detail: &str) -> (r: AppError)
    ensures
        r matches AppError::BadRequest(m) && m@ == "Multipart error: "@ + detail@,
{
    AppError::BadRequest(prefixed("Multipart error: ", detail))
}

/// The error for a file chunk that could not be read.
pub fn read_error(detail: &str) -> (r: AppError)
    ensures
        r matches AppError::BadRequest(m) && m@ == "Read error: "@ + detail@,
{
    AppError::BadRequest(prefixed("Read error: ", detail))
}

// ---------------------------------------------------------------------------
// Reading the barcodes
// ---------------------------------------------------------------------------
/// The records of `bytes` read as CSV by the `csv` crate with these
/// settings, each a list of fields; or the text of the first error.
pub uninterp spec fn csv_records(bytes: Seq<u8>, has_headers: bool, flexible: bool) -> Result<
    Seq<Seq<Seq<char>>>,
    Seq<char>,
>;

/// The view of CSV records.
pub open spec fn rows_view(rows: Seq<Vec<String>>) -> Seq<Seq<Seq<char>>> {
    rows.map_values(|row: Vec<String>| row@.map_values(|c: String| c@))
}

/// The view of what reading CSV gave.
pub open spec fn csv_result_view(r: Result<Vec<Vec<String>>, String>) -> Result<
    Seq<Seq<Seq<char>>>,
    Seq<char>,
> {
    match r {
        Ok(rows) => Ok(rows_view(rows@)),
        Err(m) => Err(m@),
    }
}

/// Reads `bytes` with a `csv::Reader` built by `ReaderBuilder` with these
/// settings, collecting each `StringRecord`'s fields until the end or the
/// first error, whose `Display` text is returned. The outcome depends on the
/// arguments alone and is named by `csv_records`.
#[verifier::external_body]
fn read_csv_records(bytes: &[u8], has_headers: bool, flexible: bool) -> (r: Result<
    Vec<Vec<String>>,
    String,
>)
    ensures
        csv_result_view(r) == csv_records(bytes@, has_headers, flexible),
{
    let mut reader = csv::ReaderBuilder::new().has_headers(has_headers).flexible(flexible).from_reader(
        bytes,
    );
    let mut rows: Vec<Vec<String>> = Vec::new();
    for record in reader.records() {
        match record {
            Ok(rec) => rows.push(rec.iter().map(|c| c.to_string()).collect()),
            Err(e) => return Err(e.to_string()),
        }
    }
    Ok(rows)
}

#[verifier::external_type_specification]
#[verifier::external_body]
pub struct ExRegex(regex::Regex);

/// Whether `regex::Regex::new` accepts the pattern.
pub uninterp spec fn regex_compiles(pattern: Seq<char>) -> bool;

/// What `regex::Regex::is_match` answers for the regex compiled from
/// `pattern` and the text `text`.
pub uninterp spec fn regex_is_match(pattern: Seq<char>, text: Seq<char>) -> bool;

/// A compiled regular expression together with the pattern it was compiled
/// from. Only `CompiledPattern::compile` builds one, so the two always agree.
pub struct CompiledPattern {
    pattern: String,
    re: regex::Regex,
}

/// The pattern of an EAN-13 barcode: exactly thirteen digits.
pub const EAN13_PATTERN: &'static str = "^\\d{13}$";

impl CompiledPattern {
    /// The pattern this was compiled from.
    pub closed spec fn pattern_view(&self) -> Seq<char> {
        self.pattern@
    }

    /// Calls `regex::Regex::new(pattern)`, keeping the pattern beside the
    /// compiled regex; `None` when the crate refuses the pattern. The crate
    /// refuses only patterns outside its syntax or over its size limit; the
    /// EAN-13 pattern (`^`, `\d`, a repetition count and `$`) is within both,
    /// so it compiles.
    #[verifier::external_body]
    pub(crate) fn compile(pattern: &str) -> (r: Option<CompiledPattern>)
        ensures
            r is Some <==> regex_compiles(pattern@),
            pattern@ == EAN13_PATTERN@ ==> r is Some,
            r matches Some(c) ==> c.pattern_view() == pattern@,
    {
        match regex::Regex::new(pattern) {
            Ok(re) => Some(CompiledPattern { pattern: pattern.to_string(), re }),
            Err(_) => None,
        }
    }

    /// Calls `regex::Regex::is_match` on the compiled regex; the answer is
    /// named by `regex_is_match` over the pattern it was compiled from.
    #[verifier::external_body]
    pub(crate) fn is_match(&self, text: &str) -> (r: bool)
        ensures
            r == regex_is_match(self.pattern_view(), text@),
    {
        self.re.is_match(text)
    }

    /// The compiled EAN-13 pattern; it always compiles.
    pub fn ean13() -> (r: Option<CompiledPattern>)
        ensures
            r is Some,
            regex_compiles(EAN13_PATTERN@),
            r matches Some(c) ==> c.pattern_view() == EAN13_PATTERN@,
    {
        CompiledPattern::compile(EAN13_PATTERN)
    }
}

/// Whether a cell holds an EAN-13 barcode, as the pattern decides it.
pub open spec fn is_ean13(cell: Seq<char>) -> bool {
    regex_is_match(EAN13_PATTERN@, cell)
}

/// The cells of the records in order, each with surrounding whitespace
/// trimmed.
pub open spec fn trimmed_cells(rows: Seq<Seq<Seq<char>>>) -> Seq<Seq<char>>
    decreases rows.len(),
{
    if rows.len() == 0 {
        Seq::empty()
    } else {
        trimmed_cells(rows.drop_last()) + rows.last().map_values(|c: Seq<char>| text::trim(c))
    }
}

/// The barcodes among `cells`, each once, in the order of first appearance.
pub open spec fn new_barcodes(cells: Seq<Seq<char>>) -> Seq<Seq<char>>
    decreases cells.len(),
{
    if cells.len() == 0 {
        Seq::empty()
    } else {
        let prev = new_barcodes(cells.drop_last());
        let c = cells.last();
        if is_ean13(c) && !prev.contains(c) {
            prev.push(c)
        } else {
            prev
        }
    }
}

/// Every barcode found is one the pattern accepts and a cell of the file,
/// and none is found twice.
pub proof fn law_barcodes_once_each(cells: Seq<Seq<char>>)
    ensures
        forall|i: int|
            0 <= i < new_barcodes(cells).len() ==> is_ean13(#[trigger] new_barcodes(cells)[i])
                && cells.contains(new_barcodes(cells)[i]),
        forall|i: int, j: int|
            0 <= i < j < new_barcodes(cells).len() ==> new_barcodes(cells)[i] != new_barcodes(
                cells,
            )[j],
    decreases cells.len(),
{
    if cells.len() > 0 {
        law_barcodes_once_each(cells.drop_last());
        let prev = new_barcodes(cells.drop_last());
        let c = cells.last();
        assert forall|i: int| 0 <= i < prev.len() implies cells.contains(#[trigger] prev[i]) by {
            let k = choose|k: int| 0 <= k < cells.drop_last().len() && cells.drop_last()[k] == prev[i];
            assert(cells[k] == prev[i]);
        }
        if is_ean13(c) && !prev.contains(c) {
            let e = prev.push(c);
            assert(cells[cells.len() - 1] == c);
            assert forall|i: int| 0 <= i < e.len() implies is_ean13(#[trigger] e[i]) && cells.contains(
                e[i],
            ) by {
                if i < prev.len() {
                    assert(e[i] == prev[i]);
                }
            }
            assert forall|i: int, j: int| 0 <= i < j < e.len() implies e[i] != e[j] by {
                if j == prev.len() {
                    assert(e[i] == prev[i]);
                    assert(e[j] == c);
                } else {
                    assert(e[i] == prev[i] && e[j] == prev[j]);
                }
            }
        }
    }
}

/// The view of a list of strings.
pub open spec fn strings_view(v: Seq<String>) -> Seq<Seq<char>> {
    v.map_values(|s: String| s@)
}

/// `s` without surrounding whitespace.
fn trimmed(s: &String) -> (r: String)
    ensures
        r@ == text::trim(s@),
{
    let v = chars_of(s.as_str());
    let t = trim_chars(&v);
    string_from_chars(&t)
}

/// The trimmed cells of CSV records, in order.
pub fn barcode_candidates(rows: &Vec<Vec<String>>) -> (r: Vec<String>)
    ensures
        strings_view(r@) == trimmed_cells(rows_view(rows@)),
{
    let mut out: Vec<String> = Vec::new();
    let mut i: usize = 0;
    while i < rows.len()
        invariant
            0 <= i <= rows@.len(),
            strings_view(out@) == trimmed_cells(rows_view(rows@.take(i as int))),
        decreases rows@.len() - i,
    {
        let row = &rows[i];
        let ghost before = strings_view(out@);
        let mut j: usize = 0;
        while j < row.len()
            invariant
                0 <= j <= row@.len(),
                strings_view(out@) == before + row@.take(j as int).map_values(
                    |c: String| text::trim(c@),
                ),
            decreases row@.len() - j,
        {
            let cell = trimmed(&row[j]);
            let ghost mid = out@;
            out.push(cell);
            proof {
                assert(strings_view(out@) == strings_view(mid).push(cell@));
                assert(row@.take(j + 1).map_values(|c: String| text::trim(c@)) == row@.take(
                    j as int,
                ).map_values(|c: String| text::trim(c@)).push(text::trim(row@[j as int]@)));
            }
            j = j + 1;
        }
        proof {
            let rv = rows_view(rows@.take(i + 1));
            assert(rv.drop_last() == rows_view(rows@.take(i as int)));
            assert(rv.last() == row@.map_values(|c: String| c@));
            assert(row@.take(row@.len() as int) == row@);
            assert(rv.last().map_values(|c: Seq<char>| text::trim(c)) == row@.map_values(
                |c: String| text::trim(c@),
            ));
        }
        i = i + 1;
    }
    assert(rows@.take(rows@.len() as int) == rows@);
    out
}

/// Whether `v` already holds `s`.
fn holds_string(v: &Vec<String>, s: &String) -> (r: bool)
    ensures
        r == strings_view(v@).contains(s@),
{
    let mut i: usize = 0;
    while i < v.len()
        invariant
            0 <= i <= v@.len(),
            forall|k: int| 0 <= k < i ==> v@[k]@ != s@,
        decreases v@.len() - i,
    {
        if v[i] == *s {
            assert(strings_view(v@)[i as int] == s@);
            return true;
        }
        i = i + 1;
    }
    proof {
        if strings_view(v@).contains(s@) {
            let k = choose|k: int| 0 <= k < strings_view(v@).len() && strings_view(v@)[k] == s@;
            assert(v@[k]@ == s@);
        }
    }
    false
}

/// The cells that the pattern accepts, each once, in the order of first
/// appearance.
pub fn unique_barcodes(matcher: &CompiledPattern, cells: &Vec<String>) -> (r: Vec<String>)
    requires
        matcher.pattern_view() == EAN13_PATTERN@,
    ensures
        strings_view(r@) == new_barcodes(strings_view(cells@)),
{
    let mut found: Vec<String> = Vec::new();
    let mut i: usize = 0;
    while i < cells.len()
        invariant
            matcher.pattern_view() == EAN13_PATTERN@,
            0 <= i <= cells@.len(),
            strings_view(found@) == new_barcodes(strings_view(cells@.take(i as int))),
        decreases cells@.len() - i,
    {
        let cell = &cells[i];
        proof {
            let w = strings_view(cells@.take(i + 1));
            assert(w.drop_last() == strings_view(cells@.take(i as int)));
            assert(w.last() == cell@);
        }
        if matcher.is_match(cell.as_str()) && !holds_string(&found, cell) {
            let ghost before = found@;
            found.push(cell.clone());
            assert(strings_view(found@) == strings_view(before).push(cell@));
        }
        i = i + 1;
    }
    assert(cells@.take(cells@.len() as int) == cells@);
    found
}

/// The barcodes of CSV records: a read error refuses the file with its
/// text; otherwise the trimmed cells the pattern accepts, each once, in
/// order; a file without any is refused.
pub fn barcodes_from_records(
    matcher: &CompiledPattern,
    records: Result<Vec<Vec<String>>, String>,
) -> (r: Result<Vec<String>, AppError>)
    requires
        matcher.pattern_view() == EAN13_PATTERN@,
    ensures
        match records {
            Err(m) => r matches Err(AppError::BadRequest(msg)) && msg@ == "CSV row error: "@ + m@,
            Ok(rows) => {
                let found = new_barcodes(trimmed_cells(rows_view(rows@)));
                &&& found.len() > 0 ==> (r matches Ok(v) && strings_view(v@) == found)
                &&& found.len() == 0 ==> (r matches Err(AppError::BadRequest(msg)) && msg@
                    == "No valid EAN-13 barcodes found in CSV"@)
            },
        },
{
    match records {
        Err(m) => Err(AppError::BadRequest(prefixed("CSV row error: ", m.as_str()))),
        Ok(rows) => {
            let cells = barcode_candidates(&rows);
            let found = unique_barcodes(matcher, &cells);
            if found.len() == 0 {
                Err(AppError::BadRequest(String::from_str("No valid EAN-13 barcodes found in CSV")))
            } else {
                Ok(found)
            }
        },
    }
}

/// The barcodes of an uploaded CSV file (no header row, rows of any
/// length): every trimmed cell that is an EAN-13 barcode, each once, in
/// order of first appearance. A file that cannot be read as CSV, or holds no
/// barcode, is refused.
pub fn barcodes_from_csv(bytes: &[u8]) -> (r: Result<Vec<String>, AppError>)
    ensures
        match csv_records(bytes@, false, true) {
            Err(m) => r matches Err(AppError::BadRequest(msg)) && msg@ == "CSV row error: "@ + m,
            Ok(rows) => {
                let found = new_barcodes(trimmed_cells(rows));
                &&& found.len() > 0 ==> (r matches Ok(v) && strings_view(v@) == found)
                &&& found.len() == 0 ==> (r matches Err(AppError::BadRequest(msg)) && msg@
                    == "No valid EAN-13 barcodes found in CSV"@)
            },
        },
{
    let matcher = match CompiledPattern::ean13() {
        Some(m) => m,
        None => {
            return Err(AppError::InternalServerError(String::from_str("Invalid barcode pattern")));
        },
    };
    let records = read_csv_records(bytes, false, true);
    barcodes_from_records(&matcher, records)
}

// ---------------------------------------------------------------------------
// Status of an import job, and missing items
// ---------------------------------------------------------------------------
/// The status report of an import job, for its owner only: an unknown id is
/// "Import job not found", another user's job "Access denied".
pub fn get_import_job_status(store: &JobStore, user_id: i32, import_job_id: u128) -> (r: Result<
    ImportJobResponse,
    AppError,
>)
    ensures
        !store@.contains_key(import_job_id) ==> (r matches Err(AppError::NotFound(m)) && m@
            == "Import job not found"@),
        store@.contains_key(import_job_id) && store@[import_job_id].user_id != user_id ==> (r matches Err(
            AppError::Forbidden(m),
        ) && m@ == "Access denied"@),
        store@.contains_key(import_job_id) && store@[import_job_id].user_id == user_id ==> (r matches Ok(
            resp,
        ) && reports(resp, store@[import_job_id])),
{
    let job = match store.get_job(import_job_id) {
        Some(j) => j,
        None => {
            return Err(AppError::NotFound(String::from_str("Import job not found")));
        },
    };
    if job.user_id != user_id {
        return Err(AppError::Forbidden(String::from_str("Access denied")));
    }
    Ok(ImportJobResponse::from_job(&job))
}

/// The kinds of item a user keeps in the cooking profile.
#[derive(Clone, Copy, Debug, PartialEq, Eq, Structural)]
pub enum ProfileItem {
    Ingredient,
    Appliance,
    Cookware,
}

/// The message for a profile item that does not exist (or is not the
/// user's).
pub open spec fn not_found_message(item: ProfileItem) -> Seq<char> {
    match item {
        ProfileItem::Ingredient => "Ingredient not found"@,
        ProfileItem::Appliance => "Appliance not found"@,
        ProfileItem::Cookware => "Cookware not found"@,
    }
}

/// The error for a profile item that does not exist.
pub fn item_not_found(item: ProfileItem) -> (r: AppError)
    ensures
        r matches AppError::NotFound(m) && m@ == not_found_message(item),
{
    match item {
        ProfileItem::Ingredient => AppError::NotFound(String::from_str("Ingredient not found")),
        ProfileItem::Appliance => AppError::NotFound(String::from_str("Appliance not found")),
        ProfileItem::Cookware => AppError::NotFound(String::from_str("Cookware not found")),
    }
}

/// The answer to a delete: done when a row was deleted, else not found.
pub fn deleted_or_not_found(item: ProfileItem, deleted: bool) -> (r: Result<(), AppError>)
    ensures
        deleted ==> r is Ok,
        !deleted ==> (r matches Err(AppError::NotFound(m)) && m@ == not_found_message(item)),
{
    if deleted {
        Ok(())
    } else {
        Err(item_not_found(item))
    }
}

/// The answer to an update: the updated row, or not found.
pub fn updated_or_not_found<T>(item: ProfileItem, row: Option<T>) -> (r: Result<T, AppError>)
    ensures
        match row {
            Some(v) => r matches Ok(w) && w == v,
            None => r matches Err(AppError::NotFound(m)) && m@ == not_found_message(item),
        },
{
    match row {
        Some(v) => Ok(v),
        None => Err(item_not_found(item)),
    }
}

} // verus!
