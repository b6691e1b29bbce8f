//! The operations of the client: which requests each command sends, and how
//! the answers are turned into summaries, inspectors and patches.
use vstd::prelude::*;

use crate::api::{
    find_header, header_value, json_reply, listed, listing_error, pairs_view, sent, unit_reply,
    upload_reply,
    ApiClient, HttpMethod, ResponseData, Transport,
};
use crate::error::AppError;
use crate::filename::{
    content_disposition_filename, extract_download_filename, is_safe_filename_char,
    nonempty, sanitize_filename, sanitize_filename_spec,
};
use crate::json::{
    copy_json, same_json,
    is_json_string, json_array, json_get, json_number, json_str,
    json_text, json_u64, JsonNumber, JsonValue,
};
use crate::text::{
    append_chars, chars_of, decimal, decimal_chars, join, join_chars, parse_u64, parse_u64_spec,
    string_of, trim, trim_whitespace, char_seqs,
};

verus! {

broadcast use vstd::string::group_string_axioms;

// ---------------------------------------------------------------------------
// Query pairs
// ---------------------------------------------------------------------------

/// The views of a list of query pairs.

pub open spec fn opt_text(value: Option<String>) -> Option<Seq<char>> {
    match value {
        Some(s) => Some(s@),
        None => None,
    }
}

pub open spec fn opt_decimal(value: Option<u64>) -> Option<Seq<char>> {
    match value {
        Some(n) => Some(decimal(n as nat)),
        None => None,
    }
}

/// One pair when the value is present, none otherwise.
pub open spec fn opt_pair(key: Seq<char>, value: Option<Seq<char>>) -> Seq<(Seq<char>, Seq<char>)> {
    match value {
        Some(v) => seq![(key, v)],
        None => Seq::empty(),
    }
}

/// Appends the pair `(key, value)`.
pub fn push_pair(pairs: &mut Vec<(String, String)>, key: &str, value: &[char])
    ensures
        pairs_view(final(pairs)@) == pairs_view(old(pairs)@).push((key@, value@)),
{
    let k = chars_of(key);
    pairs.push((string_of(k.as_slice()), string_of(value)));
    assert(pairs_view(pairs@) =~= pairs_view(old(pairs)@).push((key@, value@)));
}

fn push_opt_text(pairs: &mut Vec<(String, String)>, key: &str, value: &Option<String>)
    ensures
        pairs_view(final(pairs)@) == pairs_view(old(pairs)@) + opt_pair(key@, opt_text(*value)),
{
    match value {
        Some(v) => {
            let cs = chars_of(v.as_str());
            push_pair(pairs, key, cs.as_slice());
        },
        None => {
            assert(pairs_view(pairs@) =~= pairs_view(old(pairs)@) + opt_pair(key@, None));
        },
    }
}

fn push_opt_number(pairs: &mut Vec<(String, String)>, key: &str, value: Option<u64>)
    ensures
        pairs_view(final(pairs)@) == pairs_view(old(pairs)@) + opt_pair(key@, opt_decimal(value)),
{
    match value {
        Some(n) => {
            let cs = decimal_chars(n);
            push_pair(pairs, key, cs.as_slice());
        },
        None => {
            assert(pairs_view(pairs@) =~= pairs_view(old(pairs)@) + opt_pair(key@, None));
        },
    }
}

// ---------------------------------------------------------------------------
// Document listings
// ---------------------------------------------------------------------------

/// The filters, ordering and page of a document listing.
#[derive(Clone, Debug, Default, PartialEq, Eq)]
pub struct DocumentQuery {
    pub query: Option<String>,
    pub tag: Option<String>,
    pub tag_id: Option<u64>,
    pub correspondent: Option<String>,
    pub correspondent_id: Option<u64>,
    pub document_type: Option<String>,
    pub document_type_id: Option<u64>,
    pub created_after: Option<String>,
    pub created_before: Option<String>,
    pub order_by: String,
    pub page_size: u64,
    pub page: u64,
}

/// The query pairs of a document listing: each filter that is set, in a
/// fixed order, then the ordering, the page size and the page.
pub open spec fn query_pairs_spec(q: DocumentQuery) -> Seq<(Seq<char>, Seq<char>)> {
    opt_pair("query"@, opt_text(q.query)) + opt_pair("tags__name__icontains"@, opt_text(q.tag))
        + opt_pair("tags__id__in"@, opt_decimal(q.tag_id)) + opt_pair(
        "correspondent__name__icontains"@,
        opt_text(q.correspondent),
    ) + opt_pair("correspondent__id"@, opt_decimal(q.correspondent_id)) + opt_pair(
        "document_type__name__icontains"@,
        opt_text(q.document_type),
    ) + opt_pair("document_type__id"@, opt_decimal(q.document_type_id)) + opt_pair(
        "created__date__gt"@,
        opt_text(q.created_after),
    ) + opt_pair("created__date__lt"@, opt_text(q.created_before)) + seq![
        ("ordering"@, q.order_by@),
        ("page_size"@, decimal(q.page_size as nat)),
        ("page"@, decimal(q.page as nat)),
    ]
}

impl DocumentQuery {
    /// A query with no filters, newest first, 25 per page, first page.
    pub fn new() -> (q: Self)
        ensures
            q.query is None,
            q.tag is None,
            q.tag_id is None,
            q.correspondent is None,
            q.correspondent_id is None,
            q.document_type is None,
            q.document_type_id is None,
            q.created_after is None,
            q.created_before is None,
            q.order_by@ == "-created"@,
            q.page_size == 25,
            q.page == 1,
    {
        let order = chars_of("-created");
        DocumentQuery {
            query: None,
            tag: None,
            tag_id: None,
            correspondent: None,
            correspondent_id: None,
            document_type: None,
            document_type_id: None,
            created_after: None,
            created_before: None,
            order_by: string_of(order.as_slice()),
            page_size: 25,
            page: 1,
        }
    }

    /// The query pairs that a document listing sends.
    pub fn to_query_pairs(&self) -> (pairs: Vec<(String, String)>)
        ensures
            pairs_view(pairs@) == query_pairs_spec(*self),
    {
        let mut pairs: Vec<(String, String)> = Vec::new();
        push_opt_text(&mut pairs, "query", &self.query);
        push_opt_text(&mut pairs, "tags__name__icontains", &self.tag);
        push_opt_number(&mut pairs, "tags__id__in", self.tag_id);
        push_opt_text(&mut pairs, "correspondent__name__icontains", &self.correspondent);
        push_opt_number(&mut pairs, "correspondent__id", self.correspondent_id);
        push_opt_text(&mut pairs, "document_type__name__icontains", &self.document_type);
        push_opt_number(&mut pairs, "document_type__id", self.document_type_id);
        push_opt_text(&mut pairs, "created__date__gt", &self.created_after);
        push_opt_text(&mut pairs, "created__date__lt", &self.created_before);
        let order = chars_of(self.order_by.as_str());
        push_pair(&mut pairs, "ordering", order.as_slice());
        let size = decimal_chars(self.page_size);
        push_pair(&mut pairs, "page_size", size.as_slice());
        let page = decimal_chars(self.page);
        push_pair(&mut pairs, "page", page.as_slice());
        assert(pairs_view(pairs@) =~= query_pairs_spec(*self));
        pairs
    }
}


// ---------------------------------------------------------------------------
// Reading documents and tasks
// ---------------------------------------------------------------------------

/// `doc.get(first).or_else(|| doc.get(second))`: the second key is read only
/// when the first is absent.
pub open spec fn get_either(doc: JsonValue, first: Seq<char>, second: Seq<char>) -> Option<
    JsonValue,
> {
    match json_get(doc, first) {
        Some(v) => Some(v),
        None => json_get(doc, second),
    }
}

pub open spec fn text_or(value: Option<Seq<char>>, default: Seq<char>) -> Seq<char> {
    match value {
        Some(s) => s,
        None => default,
    }
}

/// The views of a list of strings.
pub open spec fn strings_view(v: Seq<String>) -> Seq<Seq<char>> {
    v.map_values(|s: String| s@)
}

fn get_either_exec<'a>(doc: &'a JsonValue, first: &str, second: &str) -> (res: Option<
    &'a JsonValue,
>)
    ensures
        match res {
            Some(v) => get_either(*doc, first@, second@) == Some(*v),
            None => get_either(*doc, first@, second@) is None,
        },
{
    match doc.get(first) {
        Some(v) => Some(v),
        None => doc.get(second),
    }
}

pub open spec fn opt_value(value: Option<&JsonValue>) -> Option<JsonValue> {
    match value {
        Some(v) => Some(*v),
        None => None,
    }
}

/// The text of a string value, or a default.
pub fn string_or(value: Option<&JsonValue>, default: &str) -> (res: String)
    ensures
        res@ == text_or(json_str(opt_value(value)), default@),
{
    let text = match value {
        Some(v) => match v.as_str() {
            Some(s) => chars_of(s),
            None => chars_of(default),
        },
        None => chars_of(default),
    };
    string_of(text.as_slice())
}

/// A document's id, title and creation date.
#[derive(Clone, Debug, PartialEq, Eq)]
pub struct DocumentSummary {
    pub id: u64,
    pub title: String,
    pub created: String,
}

pub open spec fn id_or_zero(doc: JsonValue) -> u64 {
    match json_u64(json_get(doc, "id"@)) {
        Some(n) => n,
        None => 0,
    }
}

/// `summary` is what `document_summary_from_value` makes of `doc`.
pub open spec fn is_summary_of(summary: DocumentSummary, doc: JsonValue) -> bool {
    &&& summary.id == id_or_zero(doc)
    &&& summary.title@ == text_or(json_str(json_get(doc, "title"@)), "Untitled"@)
    &&& summary.created@ == text_or(
        json_str(get_either(doc, "created"@, "created_date"@)),
        "unknown"@,
    )
}

/// Reads the id (0 when missing), the title (`Untitled` when missing) and
/// the creation date (`created`, else `created_date`; `unknown` when missing)
/// of a document.
pub fn document_summary_from_value(document: &JsonValue) -> (res: DocumentSummary)
    ensures
        is_summary_of(res, *document),
{
    let id = match document.get("id") {
        Some(v) => match v.as_u64() {
            Some(n) => n,
            None => 0,
        },
        None => 0,
    };
    DocumentSummary {
        id,
        title: string_or(document.get("title"), "Untitled"),
        created: string_or(get_either_exec(document, "created", "created_date"), "unknown"),
    }
}


/// The summaries of the documents in the `results` of a listing answer.
pub fn document_summaries_from_response(value: &JsonValue) -> (res: Vec<DocumentSummary>)
    ensures
        match json_array(json_get(*value, "results"@)) {
            Some(items) => res@.len() == items.len() && forall|i: int|
                0 <= i < items.len() ==> is_summary_of(#[trigger] res@[i], items[i]),
            None => res@.len() == 0,
        },
{
    match value.get("results") {
        Some(results) => match results.as_array() {
            Some(items) => summaries_of(items),
            None => Vec::new(),
        },
        None => Vec::new(),
    }
}

/// Each summary is that of the document at the same place.
pub open spec fn are_summaries_of(summaries: Seq<DocumentSummary>, items: Seq<JsonValue>) -> bool {
    summaries.len() == items.len() && forall|i: int|
        0 <= i < items.len() ==> is_summary_of(#[trigger] summaries[i], items[i])
}

/// The summary of each document, in order.
pub fn summaries_of(items: &Vec<JsonValue>) -> (res: Vec<DocumentSummary>)
    ensures
        res@.len() == items@.len(),
        forall|i: int| 0 <= i < items@.len() ==> is_summary_of(#[trigger] res@[i], items@[i]),
{
    let mut out: Vec<DocumentSummary> = Vec::new();
    for i in 0..items.len()
        invariant
            out@.len() == i,
            forall|j: int| 0 <= j < i ==> is_summary_of(#[trigger] out@[j], items@[j]),
    {
        out.push(document_summary_from_value(&items[i]));
    }
    out
}

/// The link to the next page of a listing answer.
pub fn next_page_url_from_response(value: &JsonValue) -> (res: Option<String>)
    ensures
        match res {
            Some(url) => json_str(json_get(*value, "next"@)) == Some(url@),
            None => json_str(json_get(*value, "next"@)) is None,
        },
{
    match value.get("next") {
        Some(v) => match v.as_str() {
            Some(s) => {
                let cs = chars_of(s);
                Some(string_of(cs.as_slice()))
            },
            None => None,
        },
        None => None,
    }
}

/// A line `prefix + value` when the value is present.
pub open spec fn opt_line(prefix: Seq<char>, value: Option<Seq<char>>) -> Seq<Seq<char>> {
    match value {
        Some(v) => seq![prefix + v],
        None => Seq::empty(),
    }
}

/// The number of elements of an array value, in decimal.
pub open spec fn array_len_text(value: Option<JsonValue>) -> Option<Seq<char>> {
    match json_array(value) {
        Some(items) => Some(decimal(items.len())),
        None => None,
    }
}

/// The metadata lines of a document inspector.
pub open spec fn inspector_metadata(doc: JsonValue) -> Seq<Seq<char>> {
    opt_line("created "@, json_str(get_either(doc, "created"@, "created_date"@))) + opt_line(
        "file "@,
        json_str(get_either(doc, "original_file_name"@, "archived_file_name"@)),
    ) + opt_line("pages "@, opt_decimal(json_u64(json_get(doc, "page_count"@)))) + opt_line(
        "mime "@,
        json_str(json_get(doc, "mime_type"@)),
    ) + opt_line("tags "@, array_len_text(json_get(doc, "tags"@)))
}

/// The trimmed text stored under `key`, when it is a non-empty string.
pub open spec fn body_text(doc: JsonValue, key: Seq<char>) -> Option<Seq<char>> {
    match json_str(json_get(doc, key)) {
        Some(t) => nonempty(Some(trim(t))),
        None => None,
    }
}

/// The lines that stand for a document without a text body.
pub open spec fn fallback_lines(doc: JsonValue) -> Seq<Seq<char>> {
    opt_line(""@, json_str(json_get(doc, "title"@))) + opt_line(
        "file: "@,
        json_str(get_either(doc, "original_file_name"@, "archived_file_name"@)),
    ) + opt_line(""@, json_str(json_get(doc, "note"@)))
}

/// The text of a document: its first non-blank body among `content`, `text`,
/// `document_text` and `body` (trimmed); otherwise its title, file name and
/// note on separate lines; otherwise a fixed notice.
pub open spec fn text_representation(doc: JsonValue) -> Seq<char> {
    match body_text(doc, "content"@) {
        Some(t) => t,
        None => match body_text(doc, "text"@) {
            Some(t) => t,
            None => match body_text(doc, "document_text"@) {
                Some(t) => t,
                None => match body_text(doc, "body"@) {
                    Some(t) => t,
                    None => if fallback_lines(doc).len() == 0 {
                        "No text content available for this document."@
                    } else {
                        join(fallback_lines(doc), "\n"@)
                    },
                },
            },
        },
    }
}

fn body_text_exec(doc: &JsonValue, key: &str) -> (res: Option<Vec<char>>)
    ensures
        match res {
            Some(t) => body_text(*doc, key@) == Some(t@),
            None => body_text(*doc, key@) is None,
        },
{
    match doc.get(key) {
        Some(v) => match v.as_str() {
            Some(text) => {
                let cs = chars_of(text);
                let trimmed = trim_whitespace(cs.as_slice());
                if trimmed.len() > 0 {
                    Some(trimmed)
                } else {
                    None
                }
            },
            None => None,
        },
        None => None,
    }
}

/// Appends the line `prefix + value` when the value is a string.
fn push_line(lines: &mut Vec<Vec<char>>, prefix: &str, value: Option<&JsonValue>)
    ensures
        char_seqs(final(lines)@) == char_seqs(old(lines)@) + opt_line(
            prefix@,
            json_str(opt_value(value)),
        ),
{
    match value {
        Some(v) => match v.as_str() {
            Some(text) => {
                let mut line = chars_of(prefix);
                let t = chars_of(text);
                append_chars(&mut line, t.as_slice());
                lines.push(line);
                assert(char_seqs(lines@) =~= char_seqs(old(lines)@) + opt_line(
                    prefix@,
                    json_str(opt_value(value)),
                ));
            },
            None => {
                assert(char_seqs(lines@) =~= char_seqs(old(lines)@) + Seq::empty());
            },
        },
        None => {
            assert(char_seqs(lines@) =~= char_seqs(old(lines)@) + Seq::empty());
        },
    }
}

fn push_opt_chars(lines: &mut Vec<Vec<char>>, prefix: &str, value: Option<Vec<char>>)
    ensures
        char_seqs(final(lines)@) == char_seqs(old(lines)@) + opt_line(
            prefix@,
            match value {
                Some(v) => Some(v@),
                None => None,
            },
        ),
{
    match value {
        Some(v) => {
            let mut line = chars_of(prefix);
            append_chars(&mut line, v.as_slice());
            lines.push(line);
            assert(char_seqs(lines@) =~= char_seqs(old(lines)@) + seq![prefix@ + v@]);
        },
        None => {
            assert(char_seqs(lines@) =~= char_seqs(old(lines)@) + Seq::empty());
        },
    }
}

fn strings_of(lines: &Vec<Vec<char>>) -> (res: Vec<String>)
    ensures
        strings_view(res@) == char_seqs(lines@),
{
    let mut out: Vec<String> = Vec::new();
    for i in 0..lines.len()
        invariant
            out@.len() == i,
            forall|j: int| 0 <= j < i ==> (#[trigger] out@[j])@ == lines@[j]@,
    {
        let line = string_of(lines[i].as_slice());
        assert(line@ == lines@[i as int]@);
        out.push(line);
    }
    assert(strings_view(out@) =~= char_seqs(lines@));
    out
}

/// The text of a document, as `text_representation` describes it.
pub fn document_text_representation(document: &JsonValue) -> (res: String)
    ensures
        res@ == text_representation(*document),
{
    match body_text_exec(document, "content") {
        Some(t) => return string_of(t.as_slice()),
        None => {},
    }
    match body_text_exec(document, "text") {
        Some(t) => return string_of(t.as_slice()),
        None => {},
    }
    match body_text_exec(document, "document_text") {
        Some(t) => return string_of(t.as_slice()),
        None => {},
    }
    match body_text_exec(document, "body") {
        Some(t) => return string_of(t.as_slice()),
        None => {},
    }
    let mut lines: Vec<Vec<char>> = Vec::new();
    push_line(&mut lines, "", document.get("title"));
    push_line(
        &mut lines,
        "file: ",
        get_either_exec(document, "original_file_name", "archived_file_name"),
    );
    push_line(&mut lines, "", document.get("note"));
    assert(char_seqs(lines@) =~= fallback_lines(*document));
    if lines.len() == 0 {
        let notice = chars_of("No text content available for this document.");
        string_of(notice.as_slice())
    } else {
        let newline = chars_of("\n");
        let text = join_chars(&lines, newline.as_slice());
        string_of(text.as_slice())
    }
}

/// A document's id, title, text and metadata lines.
#[derive(Clone, Debug, PartialEq, Eq)]
pub struct DocumentInspector {
    pub id: u64,
    pub title: String,
    pub text: String,
    pub metadata: Vec<String>,
}

/// `inspector` is what `document_inspector_from_value` makes of `doc`.
pub open spec fn is_inspector_of(inspector: DocumentInspector, doc: JsonValue) -> bool {
    &&& inspector.id == id_or_zero(doc)
    &&& inspector.title@ == text_or(json_str(json_get(doc, "title"@)), "Untitled"@)
    &&& inspector.text@ == text_representation(doc)
    &&& strings_view(inspector.metadata@) == inspector_metadata(doc)
}

/// Reads a document into an inspector: id, title, text, and metadata lines
/// for the creation date, file name, page count, MIME type and tag count
/// that the document has.
pub fn document_inspector_from_value(document: &JsonValue) -> (res: DocumentInspector)
    ensures
        is_inspector_of(res, *document),
{
    let summary = document_summary_from_value(document);
    let text = document_text_representation(document);
    let mut lines: Vec<Vec<char>> = Vec::new();
    push_line(&mut lines, "created ", get_either_exec(document, "created", "created_date"));
    push_line(
        &mut lines,
        "file ",
        get_either_exec(document, "original_file_name", "archived_file_name"),
    );
    let pages = match document.get("page_count") {
        Some(v) => match v.as_u64() {
            Some(n) => Some(decimal_chars(n)),
            None => None,
        },
        None => None,
    };
    push_opt_chars(&mut lines, "pages ", pages);
    push_line(&mut lines, "mime ", document.get("mime_type"));
    let tag_count = match document.get("tags") {
        Some(v) => match v.as_array() {
            Some(items) => Some(decimal_chars(items.len() as u64)),
            None => None,
        },
        None => None,
    };
    push_opt_chars(&mut lines, "tags ", tag_count);
    assert(char_seqs(lines@) =~= inspector_metadata(*document));
    DocumentInspector { id: summary.id, title: summary.title, text, metadata: strings_of(&lines) }
}

/// The id, status and note of a task.
#[derive(Clone, Debug, PartialEq, Eq)]
pub struct TaskSummary {
    pub id: Option<u64>,
    pub status: String,
    pub note: String,
}

/// `summary` is what `latest_task_summary` makes of `task`: the note is the
/// first present of `task_file_name`, `type` and `result`, when a string.
pub open spec fn is_task_summary_of(summary: TaskSummary, task: JsonValue) -> bool {
    &&& summary.id == json_u64(json_get(task, "id"@))
    &&& summary.status@ == text_or(json_str(json_get(task, "status"@)), "unknown"@)
    &&& summary.note@ == text_or(
        json_str(
            match json_get(task, "task_file_name"@) {
                Some(v) => Some(v),
                None => get_either(task, "type"@, "result"@),
            },
        ),
        ""@,
    )
}

/// The summary of the first task of a task list; nothing when the list is
/// empty or not a list.
pub open spec fn latest_task_of(summary: Option<TaskSummary>, tasks: JsonValue) -> bool {
    match json_array(Some(tasks)) {
        Some(items) => if items.len() > 0 {
            summary matches Some(s) && is_task_summary_of(s, items[0])
        } else {
            summary is None
        },
        None => summary is None,
    }
}

/// The summary of the first task of a task list; nothing when the list is
/// empty or not a list.
pub fn latest_task_summary(tasks: &JsonValue) -> (res: Option<TaskSummary>)
    ensures
        latest_task_of(res, *tasks),
{
    match tasks.as_array() {
        Some(items) => {
            if items.len() == 0 {
                return None;
            }
            let task = &items[0];
            let id = match task.get("id") {
                Some(v) => v.as_u64(),
                None => None,
            };
            let note_value = match task.get("task_file_name") {
                Some(v) => Some(v),
                None => get_either_exec(task, "type", "result"),
            };
            Some(
                TaskSummary {
                    id,
                    status: string_or(task.get("status"), "unknown"),
                    note: string_or(note_value, ""),
                },
            )
        },
        None => None,
    }
}


// ---------------------------------------------------------------------------
// Request bodies
// ---------------------------------------------------------------------------

/// What a field of a request body holds.
pub enum FieldSpec {
    Text(Seq<char>),
    Number(u64),
    Numbers(Seq<u64>),
    Flag(bool),
    /// A nested object whose fields hold text, numbers or flags.
    Fields(Seq<(Seq<char>, FieldSpec)>),
    /// A copy of the given value.
    Same(JsonValue),
    /// The given value itself.
    Exactly(JsonValue),
    /// `null`.
    Null,
    /// Text, or `null` when absent.
    OptText(Option<Seq<char>>),
    /// A signed integer, stored as serde_json stores one.
    Int(i64),
    /// An array of exactly these elements.
    Elements(Seq<JsonValue>),
    /// An array of objects, each holding exactly the given fields.
    Objects(Seq<Seq<(Seq<char>, FieldSpec)>>),
    /// An array of strings with exactly these texts.
    Texts(Seq<Seq<char>>),
}

/// The JSON number of a signed integer: non-negative values are stored as
/// unsigned ones.
pub open spec fn int_value(n: i64) -> JsonValue {
    if n >= 0 {
        JsonValue::Number(JsonNumber::PosInt(n as u64))
    } else {
        JsonValue::Number(JsonNumber::NegInt(n))
    }
}

pub fn json_int(n: i64) -> (res: JsonValue)
    ensures
        res == int_value(n),
{
    if n >= 0 {
        JsonValue::Number(JsonNumber::PosInt(n as u64))
    } else {
        JsonValue::Number(JsonNumber::NegInt(n))
    }
}

/// `v` is an array of the given non-negative integers.
pub open spec fn is_number_array(v: JsonValue, ns: Seq<u64>) -> bool {
    v matches JsonValue::Array(items) && items@.len() == ns.len() && forall|i: int|
        0 <= i < ns.len() ==> #[trigger] items@[i] == JsonValue::Number(JsonNumber::PosInt(ns[i]))
}

pub open spec fn scalar_fits(v: JsonValue, f: FieldSpec) -> bool {
    match f {
        FieldSpec::Text(t) => is_json_string(v, t),
        FieldSpec::Number(n) => v == JsonValue::Number(JsonNumber::PosInt(n)),
        FieldSpec::Numbers(ns) => is_number_array(v, ns),
        FieldSpec::Flag(b) => v == JsonValue::Bool(b),
        FieldSpec::Fields(_) => false,
        FieldSpec::Objects(_) => false,
        FieldSpec::Same(w) => same_json(w, v),
        FieldSpec::Exactly(w) => v == w,
        FieldSpec::Null => v is Null,
        FieldSpec::OptText(t) => match t {
            Some(x) => is_json_string(v, x),
            None => v is Null,
        },
        FieldSpec::Int(n) => v == int_value(n),
        FieldSpec::Elements(s) => v matches JsonValue::Array(items) && items@ == s,
        FieldSpec::Texts(ts) => v matches JsonValue::Array(items) && items@.len() == ts.len()
            && forall|i: int| 0 <= i < ts.len() ==> is_json_string(#[trigger] items@[i], ts[i]),
    }
}

/// `entries` hold exactly the given fields, in order.
pub open spec fn entries_fit_scalars(
    entries: Seq<(String, JsonValue)>,
    fields: Seq<(Seq<char>, FieldSpec)>,
) -> bool {
    entries.len() == fields.len() && forall|i: int|
        0 <= i < fields.len() ==> (#[trigger] entries[i]).0@ == fields[i].0 && scalar_fits(
            entries[i].1,
            fields[i].1,
        )
}

/// `items` are objects, each holding exactly the fields of its row, in
/// order.
pub open spec fn items_fit(items: Seq<JsonValue>, rows: Seq<Seq<(Seq<char>, FieldSpec)>>) -> bool {
    items.len() == rows.len() && forall|i: int|
        0 <= i < rows.len() ==> ((#[trigger] items[i]) matches JsonValue::Object(entries)
            && entries_fit_scalars(entries@, rows[i]))
}

pub open spec fn value_fits(v: JsonValue, f: FieldSpec) -> bool {
    match f {
        FieldSpec::Objects(rows) => v matches JsonValue::Array(items) && items_fit(items@, rows),
        FieldSpec::Fields(inner) => v matches JsonValue::Object(entries) && entries_fit_scalars(
            entries@,
            inner,
        ),
        _ => scalar_fits(v, f),
    }
}

/// `v` is an object that holds exactly the given fields, in order.
pub open spec fn object_fits(v: JsonValue, fields: Seq<(Seq<char>, FieldSpec)>) -> bool {
    v matches JsonValue::Object(entries) && entries.len() == fields.len() && forall|i: int|
        0 <= i < fields.len() ==> (#[trigger] entries@[i]).0@ == fields[i].0 && value_fits(
            entries@[i].1,
            fields[i].1,
        )
}

pub open spec fn entries_fit(entries: Seq<(String, JsonValue)>, fields: Seq<(Seq<char>, FieldSpec)>) -> bool {
    entries.len() == fields.len() && forall|i: int|
        0 <= i < fields.len() ==> (#[trigger] entries[i]).0@ == fields[i].0 && value_fits(
            entries[i].1,
            fields[i].1,
        )
}

/// Appends an entry whose value fits `f`.
pub fn push_entry(
    entries: &mut Vec<(String, JsonValue)>,
    key: &str,
    value: JsonValue,
    Ghost(fields): Ghost<Seq<(Seq<char>, FieldSpec)>>,
    Ghost(f): Ghost<FieldSpec>,
)
    requires
        entries_fit(old(entries)@, fields),
        value_fits(value, f),
    ensures
        entries_fit(final(entries)@, fields.push((key@, f))),
{
    let k = chars_of(key);
    entries.push((string_of(k.as_slice()), value));
    assert forall|i: int| 0 <= i < fields.len() + 1 implies (#[trigger] entries@[i]).0@ == fields.push(
        (key@, f),
    )[i].0 && value_fits(entries@[i].1, fields.push((key@, f))[i].1) by {
        if i < fields.len() {
            assert(entries@[i] == old(entries)@[i]);
        }
    }
}

/// An array of the given numbers.
pub fn number_array(ns: &[u64]) -> (res: JsonValue)
    ensures
        is_number_array(res, ns@),
{
    let mut items: Vec<JsonValue> = Vec::new();
    for i in 0..ns.len()
        invariant
            items@.len() == i,
            forall|j: int|
                0 <= j < i ==> #[trigger] items@[j] == JsonValue::Number(JsonNumber::PosInt(ns@[j])),
    {
        items.push(json_number(ns[i]));
    }
    JsonValue::Array(items)
}

fn text_value(s: &String) -> (res: JsonValue)
    ensures
        is_json_string(res, s@),
{
    let cs = chars_of(s.as_str());
    JsonValue::String(string_of(cs.as_slice()))
}

pub open spec fn opt_field(key: Seq<char>, f: Option<FieldSpec>) -> Seq<(Seq<char>, FieldSpec)> {
    match f {
        Some(x) => seq![(key, x)],
        None => Seq::empty(),
    }
}

pub open spec fn text_field(v: Option<String>) -> Option<FieldSpec> {
    match v {
        Some(s) => Some(FieldSpec::Text(s@)),
        None => None,
    }
}

pub open spec fn number_field(v: Option<u64>) -> Option<FieldSpec> {
    match v {
        Some(n) => Some(FieldSpec::Number(n)),
        None => None,
    }
}

pub open spec fn flag_field(v: Option<bool>) -> Option<FieldSpec> {
    match v {
        Some(b) => Some(FieldSpec::Flag(b)),
        None => None,
    }
}

/// The changes to a document's fields.
#[derive(Debug, Default, PartialEq, Eq)]
pub struct UpdateRequest {
    pub title: Option<String>,
    pub correspondent_id: Option<u64>,
    pub document_type_id: Option<u64>,
    pub tag_ids: Option<Vec<u64>>,
    pub created: Option<String>,
    pub custom_fields: Option<JsonValue>,
    pub asn: Option<u64>,
}

/// The fields of a document patch, for each change that the request holds.
pub open spec fn update_fields(r: UpdateRequest) -> Seq<(Seq<char>, FieldSpec)> {
    patch_fields(r, r.tag_ids)
}

/// The fields of a document patch with the given tag list in place of the
/// request's own.
pub open spec fn patch_fields(r: UpdateRequest, tag_ids: Option<Vec<u64>>) -> Seq<
    (Seq<char>, FieldSpec),
> {
    opt_field("title"@, text_field(r.title)) + opt_field(
        "correspondent"@,
        number_field(r.correspondent_id),
    ) + opt_field("document_type"@, number_field(r.document_type_id)) + opt_field(
        "tags"@,
        numbers_field(tag_ids),
    ) + opt_field("created"@, text_field(r.created)) + opt_field(
        "custom_fields"@,
        same_field(r.custom_fields),
    ) + opt_field("archive_serial_number"@, number_field(r.asn))
}

fn push_text_field(
    entries: &mut Vec<(String, JsonValue)>,
    key: &str,
    value: &Option<String>,
    Ghost(fields): Ghost<Seq<(Seq<char>, FieldSpec)>>,
)
    requires
        entries_fit(old(entries)@, fields),
    ensures
        entries_fit(final(entries)@, fields + opt_field(key@, text_field(*value))),
{
    match value {
        Some(t) => {
            push_entry(entries, key, text_value(t), Ghost(fields), Ghost(FieldSpec::Text(t@)));
            assert(fields.push((key@, FieldSpec::Text(t@))) =~= fields + opt_field(
                key@,
                text_field(*value),
            ));
        },
        None => {
            assert(fields + opt_field(key@, text_field(*value)) =~= fields);
        },
    }
}

fn push_number_field(
    entries: &mut Vec<(String, JsonValue)>,
    key: &str,
    value: Option<u64>,
    Ghost(fields): Ghost<Seq<(Seq<char>, FieldSpec)>>,
)
    requires
        entries_fit(old(entries)@, fields),
    ensures
        entries_fit(final(entries)@, fields + opt_field(key@, number_field(value))),
{
    match value {
        Some(n) => {
            push_entry(entries, key, json_number(n), Ghost(fields), Ghost(FieldSpec::Number(n)));
            assert(fields.push((key@, FieldSpec::Number(n))) =~= fields + opt_field(
                key@,
                number_field(value),
            ));
        },
        None => {
            assert(fields + opt_field(key@, number_field(value)) =~= fields);
        },
    }
}

fn push_flag_field(
    entries: &mut Vec<(String, JsonValue)>,
    key: &str,
    value: Option<bool>,
    Ghost(fields): Ghost<Seq<(Seq<char>, FieldSpec)>>,
)
    requires
        entries_fit(old(entries)@, fields),
    ensures
        entries_fit(final(entries)@, fields + opt_field(key@, flag_field(value))),
{
    match value {
        Some(b) => {
            push_entry(entries, key, JsonValue::Bool(b), Ghost(fields), Ghost(FieldSpec::Flag(b)));
            assert(fields.push((key@, FieldSpec::Flag(b))) =~= fields + opt_field(
                key@,
                flag_field(value),
            ));
        },
        None => {
            assert(fields + opt_field(key@, flag_field(value)) =~= fields);
        },
    }
}

pub open spec fn numbers_field(v: Option<Vec<u64>>) -> Option<FieldSpec> {
    match v {
        Some(ids) => Some(FieldSpec::Numbers(ids@)),
        None => None,
    }
}

pub open spec fn same_field(v: Option<JsonValue>) -> Option<FieldSpec> {
    match v {
        Some(x) => Some(FieldSpec::Same(x)),
        None => None,
    }
}

fn push_numbers_field(
    entries: &mut Vec<(String, JsonValue)>,
    key: &str,
    value: &Option<Vec<u64>>,
    Ghost(fields): Ghost<Seq<(Seq<char>, FieldSpec)>>,
)
    requires
        entries_fit(old(entries)@, fields),
    ensures
        entries_fit(final(entries)@, fields + opt_field(key@, numbers_field(*value))),
{
    match value {
        Some(ids) => {
            push_entry(entries, key, number_array(ids.as_slice()), Ghost(fields), Ghost(FieldSpec::Numbers(ids@)));
            assert(fields.push((key@, FieldSpec::Numbers(ids@))) =~= fields + opt_field(
                key@,
                numbers_field(*value),
            ));
        },
        None => {
            assert(fields + opt_field(key@, numbers_field(*value)) =~= fields);
        },
    }
}

fn push_same_field(
    entries: &mut Vec<(String, JsonValue)>,
    key: &str,
    value: &Option<JsonValue>,
    Ghost(fields): Ghost<Seq<(Seq<char>, FieldSpec)>>,
)
    requires
        entries_fit(old(entries)@, fields),
    ensures
        entries_fit(final(entries)@, fields + opt_field(key@, same_field(*value))),
{
    match value {
        Some(v) => {
            push_entry(entries, key, copy_json(v), Ghost(fields), Ghost(FieldSpec::Same(*v)));
            assert(fields.push((key@, FieldSpec::Same(*v))) =~= fields + opt_field(
                key@,
                same_field(*value),
            ));
        },
        None => {
            assert(fields + opt_field(key@, same_field(*value)) =~= fields);
        },
    }
}

pub proof fn lemma_object_fits(entries: Vec<(String, JsonValue)>, fields: Seq<(Seq<char>, FieldSpec)>)
    requires
        entries_fit(entries@, fields),
    ensures
        object_fits(JsonValue::Object(entries), fields),
{
}

/// The body of a document update: an object with one entry per change, or
/// `NoFieldsToUpdate` when the request changes nothing.
pub fn update_patch(request: &UpdateRequest) -> (res: Result<JsonValue, AppError>)
    ensures
        match res {
            Ok(v) => update_fields(*request).len() > 0 && object_fits(v, update_fields(*request)),
            Err(e) => update_fields(*request).len() == 0 && e is NoFieldsToUpdate,
        },
{
    document_patch(request, &request.tag_ids)
}

/// The body of a document update with the given tag list in place of the
/// request's own.
pub fn document_patch(request: &UpdateRequest, tag_ids: &Option<Vec<u64>>) -> (res: Result<
    JsonValue,
    AppError,
>)
    ensures
        match res {
            Ok(v) => patch_fields(*request, *tag_ids).len() > 0 && object_fits(
                v,
                patch_fields(*request, *tag_ids),
            ),
            Err(e) => patch_fields(*request, *tag_ids).len() == 0 && e is NoFieldsToUpdate,
        },
{
    let mut entries: Vec<(String, JsonValue)> = Vec::new();
    let ghost f0: Seq<(Seq<char>, FieldSpec)> = Seq::empty();
    push_text_field(&mut entries, "title", &request.title, Ghost(f0));
    let ghost f1 = f0 + opt_field("title"@, text_field(request.title));
    push_number_field(&mut entries, "correspondent", request.correspondent_id, Ghost(f1));
    let ghost f2 = f1 + opt_field("correspondent"@, number_field(request.correspondent_id));
    push_number_field(&mut entries, "document_type", request.document_type_id, Ghost(f2));
    let ghost f3 = f2 + opt_field("document_type"@, number_field(request.document_type_id));
    push_numbers_field(&mut entries, "tags", tag_ids, Ghost(f3));
    let ghost f4 = f3 + opt_field("tags"@, numbers_field(*tag_ids));
    push_text_field(&mut entries, "created", &request.created, Ghost(f4));
    let ghost f5 = f4 + opt_field("created"@, text_field(request.created));
    push_same_field(&mut entries, "custom_fields", &request.custom_fields, Ghost(f5));
    let ghost f6 = f5 + opt_field("custom_fields"@, same_field(request.custom_fields));
    push_number_field(&mut entries, "archive_serial_number", request.asn, Ghost(f6));
    let ghost f7 = f6 + opt_field("archive_serial_number"@, number_field(request.asn));
    assert(f7 =~= patch_fields(*request, *tag_ids));
    if entries.len() == 0 {
        return Err(AppError::NoFieldsToUpdate);
    }
    proof {
        lemma_object_fits(entries, f7);
    }
    Ok(JsonValue::Object(entries))
}

/// The changes to a tag.
#[derive(Clone, Debug, Default, PartialEq, Eq)]
pub struct TagUpdateRequest {
    pub name: Option<String>,
    pub color: Option<String>,
    pub inbox: Option<bool>,
}

pub open spec fn tag_update_fields(r: TagUpdateRequest) -> Seq<(Seq<char>, FieldSpec)> {
    opt_field("name"@, text_field(r.name)) + opt_field("color"@, text_field(r.color)) + opt_field(
        "is_inbox_tag"@,
        flag_field(r.inbox),
    )
}

/// The body of a tag update, or `NoFieldsToUpdate` when it changes nothing.
pub fn tag_patch(request: &TagUpdateRequest) -> (res: Result<JsonValue, AppError>)
    ensures
        match res {
            Ok(v) => tag_update_fields(*request).len() > 0 && object_fits(
                v,
                tag_update_fields(*request),
            ),
            Err(e) => tag_update_fields(*request).len() == 0 && e is NoFieldsToUpdate,
        },
{
    let mut entries: Vec<(String, JsonValue)> = Vec::new();
    let ghost f0: Seq<(Seq<char>, FieldSpec)> = Seq::empty();
    push_text_field(&mut entries, "name", &request.name, Ghost(f0));
    let ghost f1 = f0 + opt_field("name"@, text_field(request.name));
    push_text_field(&mut entries, "color", &request.color, Ghost(f1));
    let ghost f2 = f1 + opt_field("color"@, text_field(request.color));
    push_flag_field(&mut entries, "is_inbox_tag", request.inbox, Ghost(f2));
    let ghost f3 = f2 + opt_field("is_inbox_tag"@, flag_field(request.inbox));
    assert(f3 =~= tag_update_fields(*request));
    if entries.len() == 0 {
        return Err(AppError::NoFieldsToUpdate);
    }
    proof {
        lemma_object_fits(entries, f3);
    }
    Ok(JsonValue::Object(entries))
}

/// `v` is an object with an entry under `key` whose value fits `f`.
pub open spec fn has_entry(v: JsonValue, key: Seq<char>, f: FieldSpec) -> bool {
    v matches JsonValue::Object(entries) && exists|i: int|
        0 <= i < entries.len() && (#[trigger] entries@[i]).0@ == key && value_fits(entries@[i].1, f)
}

/// `v` is an object with no entry under `key`.
pub open spec fn lacks_entry(v: JsonValue, key: Seq<char>) -> bool {
    v matches JsonValue::Object(entries) && forall|i: int|
        0 <= i < entries.len() ==> (#[trigger] entries@[i]).0@ != key
}

/// `v` is an object with `n` entries.
pub open spec fn entry_count(v: JsonValue, n: int) -> bool {
    v matches JsonValue::Object(entries) && entries.len() == n
}

/// 1 for a value that is there, 0 for one that is not.
pub open spec fn present<A>(o: Option<A>) -> int {
    if o is Some {
        1
    } else {
        0
    }
}

/// An entry that an optional value puts in an object: there, with the
/// value, when the value is; not there at all when it is not.
pub open spec fn entry_for(v: JsonValue, key: Seq<char>, f: Option<FieldSpec>) -> bool {
    match f {
        Some(x) => has_entry(v, key, x),
        None => lacks_entry(v, key),
    }
}

/// What an object that holds exactly `fields` says of each of them.
proof fn lemma_fields_entries(v: JsonValue, fields: Seq<(Seq<char>, FieldSpec)>)
    requires
        object_fits(v, fields),
    ensures
        entry_count(v, fields.len() as int),
        forall|i: int| 0 <= i < fields.len() ==> has_entry(v, (#[trigger] fields[i]).0, fields[i].1),
        forall|key: Seq<char>|
            (forall|i: int| 0 <= i < fields.len() ==> (#[trigger] fields[i]).0 != key) ==> lacks_entry(
                v,
                key,
            ),
{
    if let JsonValue::Object(entries) = v {
        assert forall|i: int| 0 <= i < fields.len() implies has_entry(v, (#[trigger] fields[i]).0, fields[i].1) by {
            assert(entries@[i].0@ == fields[i].0);
        }
        assert forall|key: Seq<char>|
            (forall|i: int| 0 <= i < fields.len() ==> (#[trigger] fields[i]).0 != key) implies lacks_entry(
            v,
            key,
        ) by {
            assert forall|i: int| 0 <= i < entries.len() implies (#[trigger] entries@[i]).0@ != key by {
                assert(entries@[i].0@ == fields[i].0);
            }
        }
    }
}

/// No field of `fields` is under `key`.
pub open spec fn keys_avoid(fields: Seq<(Seq<char>, FieldSpec)>, key: Seq<char>) -> bool {
    forall|i: int| 0 <= i < fields.len() ==> (#[trigger] fields[i]).0 != key
}

proof fn lemma_keys_avoid_concat(a: Seq<(Seq<char>, FieldSpec)>, b: Seq<(Seq<char>, FieldSpec)>, key: Seq<char>)
    requires
        keys_avoid(a, key),
        keys_avoid(b, key),
    ensures
        keys_avoid(a + b, key),
{
    assert forall|i: int| 0 <= i < (a + b).len() implies (#[trigger] (a + b)[i]).0 != key by {
        if i < a.len() {
            assert((a + b)[i] == a[i]);
        } else {
            assert((a + b)[i] == b[i - a.len()]);
        }
    }
}

proof fn lemma_keys_avoid_opt(k: Seq<char>, f: Option<FieldSpec>, key: Seq<char>)
    requires
        k != key,
    ensures
        keys_avoid(opt_field(k, f), key),
{
}

/// The entry under `key` of an object that holds exactly
/// `before + opt_field(key, f) + after`, with `key` nowhere else.
proof fn lemma_entry_between(
    v: JsonValue,
    before: Seq<(Seq<char>, FieldSpec)>,
    key: Seq<char>,
    f: Option<FieldSpec>,
    after: Seq<(Seq<char>, FieldSpec)>,
)
    requires
        object_fits(v, before + opt_field(key, f) + after),
        keys_avoid(before, key),
        keys_avoid(after, key),
    ensures
        entry_for(v, key, f),
{
    let m = opt_field(key, f);
    let fields = before + m + after;
    lemma_fields_entries(v, fields);
    if f is Some {
        assert(fields[before.len() as int] == m[0]);
    } else {
        assert(m.len() == 0);
        lemma_keys_avoid_concat(before, m, key);
        lemma_keys_avoid_concat(before + m, after, key);
        assert(keys_avoid(fields, key));
    }
}

/// A tag update sends exactly the changes it holds: its PATCH body has a
/// `name`, `color` and `is_inbox_tag` entry with the new value for each
/// change the request holds, no entry for one it does not, and nothing
/// else; the request is refused (`NoFieldsToUpdate`) exactly when it holds
/// no change.
pub proof fn law_tag_patch_entries(r: TagUpdateRequest, v: JsonValue)
    requires
        object_fits(v, tag_update_fields(r)),
    ensures
        r.name matches Some(t) ==> has_entry(v, "name"@, FieldSpec::Text(t@)),
        r.name is None ==> lacks_entry(v, "name"@),
        r.color matches Some(c) ==> has_entry(v, "color"@, FieldSpec::Text(c@)),
        r.color is None ==> lacks_entry(v, "color"@),
        r.inbox matches Some(b) ==> has_entry(v, "is_inbox_tag"@, FieldSpec::Flag(b)),
        r.inbox is None ==> lacks_entry(v, "is_inbox_tag"@),
        entry_count(v, present(r.name) + present(r.color) + present(r.inbox)),
{
    let fields = tag_update_fields(r);
    reveal_strlit("name");
    reveal_strlit("color");
    reveal_strlit("is_inbox_tag");
    assert("name"@.len() != "color"@.len());
    assert("name"@.len() != "is_inbox_tag"@.len());
    assert("color"@.len() != "is_inbox_tag"@.len());
    {
        let before = Seq::<(Seq<char>, FieldSpec)>::empty();
        let after = opt_field("color"@, text_field(r.color)) + opt_field("is_inbox_tag"@, flag_field(r.inbox));
        lemma_keys_avoid_opt("color"@, text_field(r.color), "name"@);
        lemma_keys_avoid_opt("is_inbox_tag"@, flag_field(r.inbox), "name"@);
        lemma_keys_avoid_concat(opt_field("color"@, text_field(r.color)), opt_field("is_inbox_tag"@, flag_field(r.inbox)), "name"@);
        assert(before + opt_field("name"@, text_field(r.name)) + after =~= fields);
        lemma_entry_between(v, before, "name"@, text_field(r.name), after);
    }
    {
        let before = opt_field("name"@, text_field(r.name));
        let after = opt_field("is_inbox_tag"@, flag_field(r.inbox));
        lemma_keys_avoid_opt("name"@, text_field(r.name), "color"@);
        lemma_keys_avoid_opt("is_inbox_tag"@, flag_field(r.inbox), "color"@);
        assert(before + opt_field("color"@, text_field(r.color)) + after =~= fields);
        lemma_entry_between(v, before, "color"@, text_field(r.color), after);
    }
    {
        let before = opt_field("name"@, text_field(r.name)) + opt_field("color"@, text_field(r.color));
        let after = Seq::<(Seq<char>, FieldSpec)>::empty();
        lemma_keys_avoid_opt("name"@, text_field(r.name), "is_inbox_tag"@);
        lemma_keys_avoid_opt("color"@, text_field(r.color), "is_inbox_tag"@);
        lemma_keys_avoid_concat(opt_field("name"@, text_field(r.name)), opt_field("color"@, text_field(r.color)), "is_inbox_tag"@);
        assert(before + opt_field("is_inbox_tag"@, flag_field(r.inbox)) + after =~= fields);
        lemma_entry_between(v, before, "is_inbox_tag"@, flag_field(r.inbox), after);
    }
    lemma_fields_entries(v, fields);
}

/// The `title` entry of a document patch.
proof fn lemma_patch_entry_title(r: UpdateRequest, tag_ids: Option<Vec<u64>>, v: JsonValue)
    requires
        object_fits(v, patch_fields(r, tag_ids)),
    ensures
        entry_for(v, "title"@, text_field(r.title)),
{
    reveal_strlit("title");
    reveal_strlit("correspondent");
    assert("correspondent"@.len() != "title"@.len());
    lemma_keys_avoid_opt("correspondent"@, number_field(r.correspondent_id), "title"@);
    reveal_strlit("document_type");
    assert("document_type"@.len() != "title"@.len());
    lemma_keys_avoid_opt("document_type"@, number_field(r.document_type_id), "title"@);
    reveal_strlit("tags");
    assert("tags"@.len() != "title"@.len());
    lemma_keys_avoid_opt("tags"@, numbers_field(tag_ids), "title"@);
    reveal_strlit("created");
    assert("created"@.len() != "title"@.len());
    lemma_keys_avoid_opt("created"@, text_field(r.created), "title"@);
    reveal_strlit("custom_fields");
    assert("custom_fields"@.len() != "title"@.len());
    lemma_keys_avoid_opt("custom_fields"@, same_field(r.custom_fields), "title"@);
    reveal_strlit("archive_serial_number");
    assert("archive_serial_number"@.len() != "title"@.len());
    lemma_keys_avoid_opt("archive_serial_number"@, number_field(r.asn), "title"@);
    let before = Seq::<(Seq<char>, FieldSpec)>::empty();
    let after = opt_field("correspondent"@, number_field(r.correspondent_id)) + opt_field("document_type"@, number_field(r.document_type_id)) + opt_field("tags"@, numbers_field(tag_ids)) + opt_field("created"@, text_field(r.created)) + opt_field("custom_fields"@, same_field(r.custom_fields)) + opt_field("archive_serial_number"@, number_field(r.asn));
    lemma_keys_avoid_concat(opt_field("correspondent"@, number_field(r.correspondent_id)), opt_field("document_type"@, number_field(r.document_type_id)), "title"@);
    lemma_keys_avoid_concat(opt_field("correspondent"@, number_field(r.correspondent_id)) + opt_field("document_type"@, number_field(r.document_type_id)), opt_field("tags"@, numbers_field(tag_ids)), "title"@);
    lemma_keys_avoid_concat(opt_field("correspondent"@, number_field(r.correspondent_id)) + opt_field("document_type"@, number_field(r.document_type_id)) + opt_field("tags"@, numbers_field(tag_ids)), opt_field("created"@, text_field(r.created)), "title"@);
    lemma_keys_avoid_concat(opt_field("correspondent"@, number_field(r.correspondent_id)) + opt_field("document_type"@, number_field(r.document_type_id)) + opt_field("tags"@, numbers_field(tag_ids)) + opt_field("created"@, text_field(r.created)), opt_field("custom_fields"@, same_field(r.custom_fields)), "title"@);
    lemma_keys_avoid_concat(opt_field("correspondent"@, number_field(r.correspondent_id)) + opt_field("document_type"@, number_field(r.document_type_id)) + opt_field("tags"@, numbers_field(tag_ids)) + opt_field("created"@, text_field(r.created)) + opt_field("custom_fields"@, same_field(r.custom_fields)), opt_field("archive_serial_number"@, number_field(r.asn)), "title"@);
    assert(before + opt_field("title"@, text_field(r.title)) + after =~= patch_fields(r, tag_ids));
    lemma_entry_between(v, before, "title"@, text_field(r.title), after);
}

/// The `correspondent` entry of a document patch.
proof fn lemma_patch_entry_correspondent(r: UpdateRequest, tag_ids: Option<Vec<u64>>, v: JsonValue)
    requires
        object_fits(v, patch_fields(r, tag_ids)),
    ensures
        entry_for(v, "correspondent"@, number_field(r.correspondent_id)),
{
    reveal_strlit("correspondent");
    reveal_strlit("title");
    assert("title"@.len() != "correspondent"@.len());
    lemma_keys_avoid_opt("title"@, text_field(r.title), "correspondent"@);
    reveal_strlit("document_type");
    assert("document_type"@[0] != "correspondent"@[0]);
    lemma_keys_avoid_opt("document_type"@, number_field(r.document_type_id), "correspondent"@);
    reveal_strlit("tags");
    assert("tags"@.len() != "correspondent"@.len());
    lemma_keys_avoid_opt("tags"@, numbers_field(tag_ids), "correspondent"@);
    reveal_strlit("created");
    assert("created"@.len() != "correspondent"@.len());
    lemma_keys_avoid_opt("created"@, text_field(r.created), "correspondent"@);
    reveal_strlit("custom_fields");
    assert("custom_fields"@[1] != "correspondent"@[1]);
    lemma_keys_avoid_opt("custom_fields"@, same_field(r.custom_fields), "correspondent"@);
    reveal_strlit("archive_serial_number");
    assert("archive_serial_number"@.len() != "correspondent"@.len());
    lemma_keys_avoid_opt("archive_serial_number"@, number_field(r.asn), "correspondent"@);
    let before = opt_field("title"@, text_field(r.title));
    let after = opt_field("document_type"@, number_field(r.document_type_id)) + opt_field("tags"@, numbers_field(tag_ids)) + opt_field("created"@, text_field(r.created)) + opt_field("custom_fields"@, same_field(r.custom_fields)) + opt_field("archive_serial_number"@, number_field(r.asn));
    lemma_keys_avoid_concat(opt_field("document_type"@, number_field(r.document_type_id)), opt_field("tags"@, numbers_field(tag_ids)), "correspondent"@);
    lemma_keys_avoid_concat(opt_field("document_type"@, number_field(r.document_type_id)) + opt_field("tags"@, numbers_field(tag_ids)), opt_field("created"@, text_field(r.created)), "correspondent"@);
    lemma_keys_avoid_concat(opt_field("document_type"@, number_field(r.document_type_id)) + opt_field("tags"@, numbers_field(tag_ids)) + opt_field("created"@, text_field(r.created)), opt_field("custom_fields"@, same_field(r.custom_fields)), "correspondent"@);
    lemma_keys_avoid_concat(opt_field("document_type"@, number_field(r.document_type_id)) + opt_field("tags"@, numbers_field(tag_ids)) + opt_field("created"@, text_field(r.created)) + opt_field("custom_fields"@, same_field(r.custom_fields)), opt_field("archive_serial_number"@, number_field(r.asn)), "correspondent"@);
    assert(before + opt_field("correspondent"@, number_field(r.correspondent_id)) + after =~= patch_fields(r, tag_ids));
    lemma_entry_between(v, before, "correspondent"@, number_field(r.correspondent_id), after);
}

/// The `document_type` entry of a document patch.
proof fn lemma_patch_entry_document_type(r: UpdateRequest, tag_ids: Option<Vec<u64>>, v: JsonValue)
    requires
        object_fits(v, patch_fields(r, tag_ids)),
    ensures
        entry_for(v, "document_type"@, number_field(r.document_type_id)),
{
    reveal_strlit("document_type");
    reveal_strlit("title");
    assert("title"@.len() != "document_type"@.len());
    lemma_keys_avoid_opt("title"@, text_field(r.title), "document_type"@);
    reveal_strlit("correspondent");
    assert("correspondent"@[0] != "document_type"@[0]);
    lemma_keys_avoid_opt("correspondent"@, number_field(r.correspondent_id), "document_type"@);
    reveal_strlit("tags");
    assert("tags"@.len() != "document_type"@.len());
    lemma_keys_avoid_opt("tags"@, numbers_field(tag_ids), "document_type"@);
    reveal_strlit("created");
    assert("created"@.len() != "document_type"@.len());
    lemma_keys_avoid_opt("created"@, text_field(r.created), "document_type"@);
    reveal_strlit("custom_fields");
    assert("custom_fields"@[0] != "document_type"@[0]);
    lemma_keys_avoid_opt("custom_fields"@, same_field(r.custom_fields), "document_type"@);
    reveal_strlit("archive_serial_number");
    assert("archive_serial_number"@.len() != "document_type"@.len());
    lemma_keys_avoid_opt("archive_serial_number"@, number_field(r.asn), "document_type"@);
    let before = opt_field("title"@, text_field(r.title)) + opt_field("correspondent"@, number_field(r.correspondent_id));
    let after = opt_field("tags"@, numbers_field(tag_ids)) + opt_field("created"@, text_field(r.created)) + opt_field("custom_fields"@, same_field(r.custom_fields)) + opt_field("archive_serial_number"@, number_field(r.asn));
    lemma_keys_avoid_concat(opt_field("title"@, text_field(r.title)), opt_field("correspondent"@, number_field(r.correspondent_id)), "document_type"@);
    lemma_keys_avoid_concat(opt_field("tags"@, numbers_field(tag_ids)), opt_field("created"@, text_field(r.created)), "document_type"@);
    lemma_keys_avoid_concat(opt_field("tags"@, numbers_field(tag_ids)) + opt_field("created"@, text_field(r.created)), opt_field("custom_fields"@, same_field(r.custom_fields)), "document_type"@);
    lemma_keys_avoid_concat(opt_field("tags"@, numbers_field(tag_ids)) + opt_field("created"@, text_field(r.created)) + opt_field("custom_fields"@, same_field(r.custom_fields)), opt_field("archive_serial_number"@, number_field(r.asn)), "document_type"@);
    assert(before + opt_field("document_type"@, number_field(r.document_type_id)) + after =~= patch_fields(r, tag_ids));
    lemma_entry_between(v, before, "document_type"@, number_field(r.document_type_id), after);
}

/// The `tags` entry of a document patch.
proof fn lemma_patch_entry_tags(r: UpdateRequest, tag_ids: Option<Vec<u64>>, v: JsonValue)
    requires
        object_fits(v, patch_fields(r, tag_ids)),
    ensures
        entry_for(v, "tags"@, numbers_field(tag_ids)),
{
    reveal_strlit("tags");
    reveal_strlit("title");
    assert("title"@.len() != "tags"@.len());
    lemma_keys_avoid_opt("title"@, text_field(r.title), "tags"@);
    reveal_strlit("correspondent");
    assert("correspondent"@.len() != "tags"@.len());
    lemma_keys_avoid_opt("correspondent"@, number_field(r.correspondent_id), "tags"@);
    reveal_strlit("document_type");
    assert("document_type"@.len() != "tags"@.len());
    lemma_keys_avoid_opt("document_type"@, number_field(r.document_type_id), "tags"@);
    reveal_strlit("created");
    assert("created"@.len() != "tags"@.len());
    lemma_keys_avoid_opt("created"@, text_field(r.created), "tags"@);
    reveal_strlit("custom_fields");
    assert("custom_fields"@.len() != "tags"@.len());
    lemma_keys_avoid_opt("custom_fields"@, same_field(r.custom_fields), "tags"@);
    reveal_strlit("archive_serial_number");
    assert("archive_serial_number"@.len() != "tags"@.len());
    lemma_keys_avoid_opt("archive_serial_number"@, number_field(r.asn), "tags"@);
    let before = opt_field("title"@, text_field(r.title)) + opt_field("correspondent"@, number_field(r.correspondent_id)) + opt_field("document_type"@, number_field(r.document_type_id));
    let after = opt_field("created"@, text_field(r.created)) + opt_field("custom_fields"@, same_field(r.custom_fields)) + opt_field("archive_serial_number"@, number_field(r.asn));
    lemma_keys_avoid_concat(opt_field("title"@, text_field(r.title)), opt_field("correspondent"@, number_field(r.correspondent_id)), "tags"@);
    lemma_keys_avoid_concat(opt_field("title"@, text_field(r.title)) + opt_field("correspondent"@, number_field(r.correspondent_id)), opt_field("document_type"@, number_field(r.document_type_id)), "tags"@);
    lemma_keys_avoid_concat(opt_field("created"@, text_field(r.created)), opt_field("custom_fields"@, same_field(r.custom_fields)), "tags"@);
    lemma_keys_avoid_concat(opt_field("created"@, text_field(r.created)) + opt_field("custom_fields"@, same_field(r.custom_fields)), opt_field("archive_serial_number"@, number_field(r.asn)), "tags"@);
    assert(before + opt_field("tags"@, numbers_field(tag_ids)) + after =~= patch_fields(r, tag_ids));
    lemma_entry_between(v, before, "tags"@, numbers_field(tag_ids), after);
}

/// The `created` entry of a document patch.
proof fn lemma_patch_entry_created(r: UpdateRequest, tag_ids: Option<Vec<u64>>, v: JsonValue)
    requires
        object_fits(v, patch_fields(r, tag_ids)),
    ensures
        entry_for(v, "created"@, text_field(r.created)),
{
    reveal_strlit("created");
    reveal_strlit("title");
    assert("title"@.len() != "created"@.len());
    lemma_keys_avoid_opt("title"@, text_field(r.title), "created"@);
    reveal_strlit("correspondent");
    assert("correspondent"@.len() != "created"@.len());
    lemma_keys_avoid_opt("correspondent"@, number_field(r.correspondent_id), "created"@);
    reveal_strlit("document_type");
    assert("document_type"@.len() != "created"@.len());
    lemma_keys_avoid_opt("document_type"@, number_field(r.document_type_id), "created"@);
    reveal_strlit("tags");
    assert("tags"@.len() != "created"@.len());
    lemma_keys_avoid_opt("tags"@, numbers_field(tag_ids), "created"@);
    reveal_strlit("custom_fields");
    assert("custom_fields"@.len() != "created"@.len());
    lemma_keys_avoid_opt("custom_fields"@, same_field(r.custom_fields), "created"@);
    reveal_strlit("archive_serial_number");
    assert("archive_serial_number"@.len() != "created"@.len());
    lemma_keys_avoid_opt("archive_serial_number"@, number_field(r.asn), "created"@);
    let before = opt_field("title"@, text_field(r.title)) + opt_field("correspondent"@, number_field(r.correspondent_id)) + opt_field("document_type"@, number_field(r.document_type_id)) + opt_field("tags"@, numbers_field(tag_ids));
    let after = opt_field("custom_fields"@, same_field(r.custom_fields)) + opt_field("archive_serial_number"@, number_field(r.asn));
    lemma_keys_avoid_concat(opt_field("title"@, text_field(r.title)), opt_field("correspondent"@, number_field(r.correspondent_id)), "created"@);
    lemma_keys_avoid_concat(opt_field("title"@, text_field(r.title)) + opt_field("correspondent"@, number_field(r.correspondent_id)), opt_field("document_type"@, number_field(r.document_type_id)), "created"@);
    lemma_keys_avoid_concat(opt_field("title"@, text_field(r.title)) + opt_field("correspondent"@, number_field(r.correspondent_id)) + opt_field("document_type"@, number_field(r.document_type_id)), opt_field("tags"@, numbers_field(tag_ids)), "created"@);
    lemma_keys_avoid_concat(opt_field("custom_fields"@, same_field(r.custom_fields)), opt_field("archive_serial_number"@, number_field(r.asn)), "created"@);
    assert(before + opt_field("created"@, text_field(r.created)) + after =~= patch_fields(r, tag_ids));
    lemma_entry_between(v, before, "created"@, text_field(r.created), after);
}

/// The `custom_fields` entry of a document patch.
proof fn lemma_patch_entry_custom_fields(r: UpdateRequest, tag_ids: Option<Vec<u64>>, v: JsonValue)
    requires
        object_fits(v, patch_fields(r, tag_ids)),
    ensures
        entry_for(v, "custom_fields"@, same_field(r.custom_fields)),
{
    reveal_strlit("custom_fields");
    reveal_strlit("title");
    assert("title"@.len() != "custom_fields"@.len());
    lemma_keys_avoid_opt("title"@, text_field(r.title), "custom_fields"@);
    reveal_strlit("correspondent");
    assert("correspondent"@[1] != "custom_fields"@[1]);
    lemma_keys_avoid_opt("correspondent"@, number_field(r.correspondent_id), "custom_fields"@);
    reveal_strlit("document_type");
    assert("document_type"@[0] != "custom_fields"@[0]);
    lemma_keys_avoid_opt("document_type"@, number_field(r.document_type_id), "custom_fields"@);
    reveal_strlit("tags");
    assert("tags"@.len() != "custom_fields"@.len());
    lemma_keys_avoid_opt("tags"@, numbers_field(tag_ids), "custom_fields"@);
    reveal_strlit("created");
    assert("created"@.len() != "custom_fields"@.len());
    lemma_keys_avoid_opt("created"@, text_field(r.created), "custom_fields"@);
    reveal_strlit("archive_serial_number");
    assert("archive_serial_number"@.len() != "custom_fields"@.len());
    lemma_keys_avoid_opt("archive_serial_number"@, number_field(r.asn), "custom_fields"@);
    let before = opt_field("title"@, text_field(r.title)) + opt_field("correspondent"@, number_field(r.correspondent_id)) + opt_field("document_type"@, number_field(r.document_type_id)) + opt_field("tags"@, numbers_field(tag_ids)) + opt_field("created"@, text_field(r.created));
    let after = opt_field("archive_serial_number"@, number_field(r.asn));
    lemma_keys_avoid_concat(opt_field("title"@, text_field(r.title)), opt_field("correspondent"@, number_field(r.correspondent_id)), "custom_fields"@);
    lemma_keys_avoid_concat(opt_field("title"@, text_field(r.title)) + opt_field("correspondent"@, number_field(r.correspondent_id)), opt_field("document_type"@, number_field(r.document_type_id)), "custom_fields"@);
    lemma_keys_avoid_concat(opt_field("title"@, text_field(r.title)) + opt_field("correspondent"@, number_field(r.correspondent_id)) + opt_field("document_type"@, number_field(r.document_type_id)), opt_field("tags"@, numbers_field(tag_ids)), "custom_fields"@);
    lemma_keys_avoid_concat(opt_field("title"@, text_field(r.title)) + opt_field("correspondent"@, number_field(r.correspondent_id)) + opt_field("document_type"@, number_field(r.document_type_id)) + opt_field("tags"@, numbers_field(tag_ids)), opt_field("created"@, text_field(r.created)), "custom_fields"@);
    assert(before + opt_field("custom_fields"@, same_field(r.custom_fields)) + after =~= patch_fields(r, tag_ids));
    lemma_entry_between(v, before, "custom_fields"@, same_field(r.custom_fields), after);
}

/// The `archive_serial_number` entry of a document patch.
proof fn lemma_patch_entry_archive_serial_number(r: UpdateRequest, tag_ids: Option<Vec<u64>>, v: JsonValue)
    requires
        object_fits(v, patch_fields(r, tag_ids)),
    ensures
        entry_for(v, "archive_serial_number"@, number_field(r.asn)),
{
    reveal_strlit("archive_serial_number");
    reveal_strlit("title");
    assert("title"@.len() != "archive_serial_number"@.len());
    lemma_keys_avoid_opt("title"@, text_field(r.title), "archive_serial_number"@);
    reveal_strlit("correspondent");
    assert("correspondent"@.len() != "archive_serial_number"@.len());
    lemma_keys_avoid_opt("correspondent"@, number_field(r.correspondent_id), "archive_serial_number"@);
    reveal_strlit("document_type");
    assert("document_type"@.len() != "archive_serial_number"@.len());
    lemma_keys_avoid_opt("document_type"@, number_field(r.document_type_id), "archive_serial_number"@);
    reveal_strlit("tags");
    assert("tags"@.len() != "archive_serial_number"@.len());
    lemma_keys_avoid_opt("tags"@, numbers_field(tag_ids), "archive_serial_number"@);
    reveal_strlit("created");
    assert("created"@.len() != "archive_serial_number"@.len());
    lemma_keys_avoid_opt("created"@, text_field(r.created), "archive_serial_number"@);
    reveal_strlit("custom_fields");
    assert("custom_fields"@.len() != "archive_serial_number"@.len());
    lemma_keys_avoid_opt("custom_fields"@, same_field(r.custom_fields), "archive_serial_number"@);
    let before = opt_field("title"@, text_field(r.title)) + opt_field("correspondent"@, number_field(r.correspondent_id)) + opt_field("document_type"@, number_field(r.document_type_id)) + opt_field("tags"@, numbers_field(tag_ids)) + opt_field("created"@, text_field(r.created)) + opt_field("custom_fields"@, same_field(r.custom_fields));
    let after = Seq::<(Seq<char>, FieldSpec)>::empty();
    lemma_keys_avoid_concat(opt_field("title"@, text_field(r.title)), opt_field("correspondent"@, number_field(r.correspondent_id)), "archive_serial_number"@);
    lemma_keys_avoid_concat(opt_field("title"@, text_field(r.title)) + opt_field("correspondent"@, number_field(r.correspondent_id)), opt_field("document_type"@, number_field(r.document_type_id)), "archive_serial_number"@);
    lemma_keys_avoid_concat(opt_field("title"@, text_field(r.title)) + opt_field("correspondent"@, number_field(r.correspondent_id)) + opt_field("document_type"@, number_field(r.document_type_id)), opt_field("tags"@, numbers_field(tag_ids)), "archive_serial_number"@);
    lemma_keys_avoid_concat(opt_field("title"@, text_field(r.title)) + opt_field("correspondent"@, number_field(r.correspondent_id)) + opt_field("document_type"@, number_field(r.document_type_id)) + opt_field("tags"@, numbers_field(tag_ids)), opt_field("created"@, text_field(r.created)), "archive_serial_number"@);
    lemma_keys_avoid_concat(opt_field("title"@, text_field(r.title)) + opt_field("correspondent"@, number_field(r.correspondent_id)) + opt_field("document_type"@, number_field(r.document_type_id)) + opt_field("tags"@, numbers_field(tag_ids)) + opt_field("created"@, text_field(r.created)), opt_field("custom_fields"@, same_field(r.custom_fields)), "archive_serial_number"@);
    assert(before + opt_field("archive_serial_number"@, number_field(r.asn)) + after =~= patch_fields(r, tag_ids));
    lemma_entry_between(v, before, "archive_serial_number"@, number_field(r.asn), after);
}

/// A document update sends exactly the changes it holds: its PATCH body has
/// a `title`, `correspondent`, `document_type`, `tags`, `created`,
/// `custom_fields` and `archive_serial_number` entry with the new value for
/// each change the request holds, no entry for one it does not, and nothing
/// else.
pub proof fn law_document_patch_entries(r: UpdateRequest, tag_ids: Option<Vec<u64>>, v: JsonValue)
    requires
        object_fits(v, patch_fields(r, tag_ids)),
    ensures
        r.title matches Some(t) ==> has_entry(v, "title"@, FieldSpec::Text(t@)),
        r.title is None ==> lacks_entry(v, "title"@),
        r.correspondent_id matches Some(n) ==> has_entry(v, "correspondent"@, FieldSpec::Number(n)),
        r.correspondent_id is None ==> lacks_entry(v, "correspondent"@),
        r.document_type_id matches Some(n) ==> has_entry(v, "document_type"@, FieldSpec::Number(n)),
        r.document_type_id is None ==> lacks_entry(v, "document_type"@),
        tag_ids matches Some(ids) ==> has_entry(v, "tags"@, FieldSpec::Numbers(ids@)),
        tag_ids is None ==> lacks_entry(v, "tags"@),
        r.created matches Some(c) ==> has_entry(v, "created"@, FieldSpec::Text(c@)),
        r.created is None ==> lacks_entry(v, "created"@),
        r.custom_fields matches Some(c) ==> has_entry(v, "custom_fields"@, FieldSpec::Same(c)),
        r.custom_fields is None ==> lacks_entry(v, "custom_fields"@),
        r.asn matches Some(n) ==> has_entry(v, "archive_serial_number"@, FieldSpec::Number(n)),
        r.asn is None ==> lacks_entry(v, "archive_serial_number"@),
        entry_count(
            v,
            present(r.title) + present(r.correspondent_id) + present(r.document_type_id) + present(
                tag_ids,
            ) + present(r.created) + present(r.custom_fields) + present(r.asn),
        ),
{
    let fields = patch_fields(r, tag_ids);
    lemma_patch_entry_title(r, tag_ids, v);
    lemma_patch_entry_correspondent(r, tag_ids, v);
    lemma_patch_entry_document_type(r, tag_ids, v);
    lemma_patch_entry_tags(r, tag_ids, v);
    lemma_patch_entry_created(r, tag_ids, v);
    lemma_patch_entry_custom_fields(r, tag_ids, v);
    lemma_patch_entry_archive_serial_number(r, tag_ids, v);
    assert(fields.len() == present(r.title) + present(r.correspondent_id) + present(r.document_type_id)
        + present(tag_ids) + present(r.created) + present(r.custom_fields) + present(r.asn));
    lemma_fields_entries(v, fields);
}

/// A document update is refused (`NoFieldsToUpdate`) exactly when it
/// changes nothing.
pub proof fn law_document_update_refused(r: UpdateRequest, tag_ids: Option<Vec<u64>>)
    ensures
        patch_fields(r, tag_ids).len() == 0 <==> (r.title is None && r.correspondent_id is None
            && r.document_type_id is None && tag_ids is None && r.created is None
            && r.custom_fields is None && r.asn is None),
        update_fields(r).len() == 0 <==> (r.title is None && r.correspondent_id is None
            && r.document_type_id is None && r.tag_ids is None && r.created is None
            && r.custom_fields is None && r.asn is None),
{
    assert(patch_fields(r, tag_ids).len() == present(r.title) + present(r.correspondent_id)
        + present(r.document_type_id) + present(tag_ids) + present(r.created) + present(
        r.custom_fields,
    ) + present(r.asn));
    assert(update_fields(r).len() == present(r.title) + present(r.correspondent_id) + present(
        r.document_type_id,
    ) + present(r.tag_ids) + present(r.created) + present(r.custom_fields) + present(r.asn));
}

/// A tag update is refused exactly when it changes nothing.
pub proof fn law_tag_update_refused(r: TagUpdateRequest)
    ensures
        tag_update_fields(r).len() == 0 <==> (r.name is None && r.color is None && r.inbox is None),
{
    assert(tag_update_fields(r).len() == present(r.name) + present(r.color) + present(r.inbox));
}


// ---------------------------------------------------------------------------
// Tags of a document
// ---------------------------------------------------------------------------

/// The numeric ids in a document's `tags` list (other entries are skipped).
pub open spec fn document_tag_ids(doc: JsonValue) -> Seq<u64> {
    match json_array(json_get(doc, "tags"@)) {
        Some(items) => items.filter_map(|v: JsonValue| json_u64(Some(v))),
        None => Seq::empty(),
    }
}

pub fn existing_tag_ids(document: &JsonValue) -> (res: Vec<u64>)
    ensures
        res@ == document_tag_ids(*document),
{
    let mut ids: Vec<u64> = Vec::new();
    match document.get("tags") {
        Some(v) => match v.as_array() {
            Some(items) => {
                for i in 0..items.len()
                    invariant
                        json_array(json_get(*document, "tags"@)) == Some(items@),
                        ids@ == items@.take(i as int).filter_map(
                            |v: JsonValue| json_u64(Some(v)),
                        ),
                {
                    assert(items@.take(i + 1).drop_last() =~= items@.take(i as int));
                    match items[i].as_u64() {
                        Some(n) => ids.push(n),
                        None => {},
                    }
                }
                assert(items@.take(items@.len() as int) =~= items@);
            },
            None => {},
        },
        None => {},
    }
    ids
}

/// `existing` with each tag of `added` appended unless already present.
pub open spec fn add_missing(existing: Seq<u64>, added: Seq<u64>) -> Seq<u64>
    decreases added.len(),
{
    if added.len() == 0 {
        existing
    } else {
        let r = add_missing(existing, added.drop_last());
        if r.contains(added.last()) {
            r
        } else {
            r.push(added.last())
        }
    }
}

pub open spec fn not_in(removed: Seq<u64>) -> spec_fn(u64) -> bool {
    |t: u64| !removed.contains(t)
}

/// The tags after an edit: the existing tags, then the added ones that were
/// not there yet, without any of the removed ones.
pub open spec fn merged_tags(existing: Seq<u64>, added: Seq<u64>, removed: Seq<u64>) -> Seq<u64> {
    add_missing(existing, added).filter(not_in(removed))
}

fn contains_tag(tags: &Vec<u64>, t: u64) -> (res: bool)
    ensures
        res == tags@.contains(t),
{
    for i in 0..tags.len()
        invariant
            forall|j: int| 0 <= j < i ==> tags@[j] != t,
    {
        if tags[i] == t {
            return true;
        }
    }
    false
}

fn contains_in(tags: &[u64], t: u64) -> (res: bool)
    ensures
        res == tags@.contains(t),
{
    for i in 0..tags.len()
        invariant
            forall|j: int| 0 <= j < i ==> tags@[j] != t,
    {
        if tags[i] == t {
            return true;
        }
    }
    false
}

/// Applies an edit of a document's tags.
pub fn merge_tag_ids(existing: Vec<u64>, added: &[u64], removed: &[u64]) -> (res: Vec<u64>)
    ensures
        res@ == merged_tags(existing@, added@, removed@),
{
    let mut tags = existing;
    let ghost start = tags@;
    for i in 0..added.len()
        invariant
            tags@ == add_missing(start, added@.take(i as int)),
    {
        assert(added@.take(i + 1).drop_last() =~= added@.take(i as int));
        if !contains_tag(&tags, added[i]) {
            tags.push(added[i]);
        }
    }
    assert(added@.take(added@.len() as int) =~= added@);
    let mut kept: Vec<u64> = Vec::new();
    for i in 0..tags.len()
        invariant
            kept@ == tags@.take(i as int).filter(not_in(removed@)),
    {
        reveal(Seq::filter);
        assert(tags@.take(i + 1).drop_last() =~= tags@.take(i as int));
        if !contains_in(removed, tags[i]) {
            kept.push(tags[i]);
        }
    }
    assert(tags@.take(tags@.len() as int) =~= tags@);
    kept
}

proof fn lemma_add_missing_contains(existing: Seq<u64>, added: Seq<u64>, t: u64)
    ensures
        add_missing(existing, added).contains(t) <==> (existing.contains(t) || added.contains(t)),
    decreases added.len(),
{
    if added.len() > 0 {
        lemma_add_missing_contains(existing, added.drop_last(), t);
        let r = add_missing(existing, added.drop_last());
        if added.drop_last().contains(t) {
            let j = choose|j: int| 0 <= j < added.drop_last().len() && added.drop_last()[j] == t;
            assert(added[j] == t);
        }
        if added.contains(t) && !added.drop_last().contains(t) {
            let j = choose|j: int| 0 <= j < added.len() && added[j] == t;
            if j < added.len() - 1 {
                assert(added.drop_last()[j] == t);
            }
            assert(added.last() == t);
        }
        if !r.contains(added.last()) {
            assert(r.push(added.last()).contains(t) <==> (r.contains(t) || added.last() == t)) by {
                if r.push(added.last()).contains(t) && !r.contains(t) {
                    let j = choose|j: int| 0 <= j < r.len() + 1 && r.push(added.last())[j] == t;
                    if j < r.len() {
                        assert(r[j] == t);
                    }
                }
                if r.contains(t) {
                    let j = choose|j: int| 0 <= j < r.len() && r[j] == t;
                    assert(r.push(added.last())[j] == t);
                }
                if added.last() == t {
                    assert(r.push(added.last())[r.len() as int] == t);
                }
            }
        }
    }
}

proof fn lemma_add_missing_no_duplicates(existing: Seq<u64>, added: Seq<u64>)
    requires
        existing.no_duplicates(),
    ensures
        add_missing(existing, added).no_duplicates(),
    decreases added.len(),
{
    if added.len() > 0 {
        lemma_add_missing_no_duplicates(existing, added.drop_last());
        let r = add_missing(existing, added.drop_last());
        if !r.contains(added.last()) {
            assert forall|i: int, j: int|
                0 <= i < r.len() + 1 && 0 <= j < r.len() + 1 && i != j implies r.push(
                added.last(),
            )[i] != r.push(added.last())[j] by {
                if i == r.len() as int {
                    assert(r[j] != added.last());
                } else if j == r.len() as int {
                    assert(r[i] != added.last());
                }
            }
        }
    }
}

/// Law: after a tag edit no removed tag is left.
pub proof fn law_merged_tags_exclude_removed(
    existing: Seq<u64>,
    added: Seq<u64>,
    removed: Seq<u64>,
    t: u64,
)
    requires
        removed.contains(t),
    ensures
        !merged_tags(existing, added, removed).contains(t),
{
    broadcast use vstd::seq_lib::group_filter_ensures;

    let m = merged_tags(existing, added, removed);
    if m.contains(t) {
        let j = choose|j: int| 0 <= j < m.len() && m[j] == t;
        assert(not_in(removed)(m[j]));
    }
}

/// Law: after a tag edit every existing or added tag that was not removed is
/// there.
pub proof fn law_merged_tags_keep_the_rest(
    existing: Seq<u64>,
    added: Seq<u64>,
    removed: Seq<u64>,
    t: u64,
)
    requires
        existing.contains(t) || added.contains(t),
        !removed.contains(t),
    ensures
        merged_tags(existing, added, removed).contains(t),
{
    broadcast use vstd::seq_lib::group_filter_ensures;

    lemma_add_missing_contains(existing, added, t);
    let a = add_missing(existing, added);
    let j = choose|j: int| 0 <= j < a.len() && a[j] == t;
    assert(not_in(removed)(a[j]));
}

/// Law: a tag edit adds no tag twice; without repeats before, none after.
pub proof fn law_merged_tags_no_duplicates(existing: Seq<u64>, added: Seq<u64>, removed: Seq<u64>)
    requires
        existing.no_duplicates(),
    ensures
        merged_tags(existing, added, removed).no_duplicates(),
{
    lemma_add_missing_no_duplicates(existing, added);
    lemma_filter_no_duplicates(add_missing(existing, added), not_in(removed));
}

proof fn lemma_filter_no_duplicates(s: Seq<u64>, p: spec_fn(u64) -> bool)
    requires
        s.no_duplicates(),
    ensures
        s.filter(p).no_duplicates(),
    decreases s.len(),
{
    reveal(Seq::filter);
    if s.len() > 0 {
        let init = s.drop_last();
        assert(init.no_duplicates());
        lemma_filter_no_duplicates(init, p);
        let f = init.filter(p);
        if p(s.last()) {
            broadcast use vstd::seq_lib::group_filter_ensures;

            assert(!f.contains(s.last())) by {
                if f.contains(s.last()) {
                    init.lemma_filter_contains_rev(p, s.last());
                    let k = choose|k: int| 0 <= k < init.len() && init[k] == s.last();
                    assert(s[k] == s[s.len() - 1]);
                }
            }
            assert forall|i: int, j: int|
                0 <= i < f.len() + 1 && 0 <= j < f.len() + 1 && i != j implies f.push(s.last())[i]
                != f.push(s.last())[j] by {
                if i == f.len() as int {
                    assert(f[j] != s.last());
                } else if j == f.len() as int {
                    assert(f[i] != s.last());
                }
            }
        }
    }
}


// ---------------------------------------------------------------------------
// Tag references
// ---------------------------------------------------------------------------

/// The id of the first tag with exactly this name and a numeric id.
pub open spec fn tag_named(tags: Seq<JsonValue>, name: Seq<char>) -> Option<u64>
    decreases tags.len(),
{
    if tags.len() == 0 {
        None
    } else if json_str(json_get(tags[0], "name"@)) == Some(name) && json_u64(
        json_get(tags[0], "id"@),
    ) is Some {
        json_u64(json_get(tags[0], "id"@))
    } else {
        tag_named(tags.drop_first(), name)
    }
}

/// A tag reference is a numeric id, or else the exact name of a tag.
pub open spec fn resolve_reference(tags: Seq<JsonValue>, reference: Seq<char>) -> Option<u64> {
    match parse_u64_spec(reference) {
        Some(n) => Some(n),
        None => tag_named(tags, reference),
    }
}

pub open spec fn unknown_tag_message(reference: Seq<char>) -> Seq<char> {
    "Unknown tag reference `"@ + reference + "`. Use an exact tag name or numeric ID."@
}

fn find_tag_named(tags: &Vec<JsonValue>, name: &[char]) -> (res: Option<u64>)
    ensures
        res == tag_named(tags@, name@),
{
    let mut i: usize = 0;
    assert(tags@.skip(0) =~= tags@);
    while i < tags.len()
        invariant
            i <= tags@.len(),
            tag_named(tags@, name@) == tag_named(tags@.skip(i as int), name@),
        decreases tags@.len() - i,
    {
        let ghost rest = tags@.skip(i as int);
        assert(rest[0] == tags@[i as int]);
        let tag = &tags[i];
        let matches = match tag.get("name") {
            Some(v) => match v.as_str() {
                Some(n) => {
                    let cs = chars_of(n);
                    crate::text::chars_equal(cs.as_slice(), name)
                },
                None => false,
            },
            None => false,
        };
        if matches {
            match tag.get("id") {
                Some(v) => match v.as_u64() {
                    Some(id) => {
                        return Some(id);
                    },
                    None => {},
                },
                None => {},
            }
        }
        assert(rest.drop_first() =~= tags@.skip(i + 1));
        i = i + 1;
    }
    None
}

/// `ids` are the references resolved against `tags`, in order.
pub open spec fn resolved_against(ids: Seq<u64>, references: Seq<String>, tags: Seq<JsonValue>) -> bool {
    ids.len() == references.len() && forall|i: int|
        0 <= i < references.len() ==> resolve_reference(tags, references[i]@) == Some(
            #[trigger] ids[i],
        )
}

/// Resolves tag references against a tag list: each reference becomes its
/// id; the first one that names no tag stops the resolution with an error.
pub fn resolve_tag_references(tags: &Vec<JsonValue>, references: &[String]) -> (res: Result<
    Vec<u64>,
    AppError,
>)
    ensures
        match res {
            Ok(ids) => ids@.len() == references@.len() && forall|i: int|
                0 <= i < references@.len() ==> resolve_reference(tags@, references@[i]@) == Some(
                    #[trigger] ids@[i],
                ),
            Err(e) => exists|i: int|
                0 <= i < references@.len() && resolve_reference(tags@, references@[i]@) is None
                    && (forall|j: int|
                    0 <= j < i ==> resolve_reference(tags@, references@[j]@) is Some) && (
                e matches AppError::Message(m) && m@ == unknown_tag_message(references@[i]@)),
        },
{
    let mut ids: Vec<u64> = Vec::new();
    for i in 0..references.len()
        invariant
            ids@.len() == i,
            forall|j: int|
                0 <= j < i ==> resolve_reference(tags@, references@[j]@) == Some(#[trigger] ids@[j]),
    {
        let reference = chars_of(references[i].as_str());
        match parse_u64(reference.as_slice()) {
            Some(n) => {
                ids.push(n);
            },
            None => match find_tag_named(tags, reference.as_slice()) {
                Some(n) => {
                    ids.push(n);
                },
                None => {
                    let mut message = chars_of("Unknown tag reference `");
                    append_chars(&mut message, reference.as_slice());
                    let tail = chars_of("`. Use an exact tag name or numeric ID.");
                    append_chars(&mut message, tail.as_slice());
                    let err = AppError::Message(string_of(message.as_slice()));
                    assert(forall|j: int|
                        0 <= j < i ==> resolve_reference(tags@, references@[j]@) is Some) by {
                        assert forall|j: int| 0 <= j < i implies resolve_reference(
                            tags@,
                            references@[j]@,
                        ) is Some by {
                            assert(resolve_reference(tags@, references@[j]@) == Some(ids@[j]));
                        }
                    }
                    return Err(err);
                },
            },
        }
    }
    Ok(ids)
}

// ---------------------------------------------------------------------------
// Paths and bodies
// ---------------------------------------------------------------------------

/// `"{collection}{id}/"`, the path of one item of a collection.
pub fn item_path(collection: &str, id: u64) -> (res: String)
    ensures
        res@ == collection@ + decimal(id as nat) + "/"@,
{
    let mut p = chars_of(collection);
    let digits = decimal_chars(id);
    append_chars(&mut p, digits.as_slice());
    let slash = chars_of("/");
    append_chars(&mut p, slash.as_slice());
    string_of(p.as_slice())
}

/// `"documents/{id}/{asset}/"`, the path of a file of a document.
pub fn asset_path(document_id: u64, asset: &str) -> (res: String)
    ensures
        res@ == "documents/"@ + decimal(document_id as nat) + "/"@ + asset@ + "/"@,
{
    let mut p = chars_of("documents/");
    let digits = decimal_chars(document_id);
    append_chars(&mut p, digits.as_slice());
    let slash = chars_of("/");
    append_chars(&mut p, slash.as_slice());
    let a = chars_of(asset);
    append_chars(&mut p, a.as_slice());
    append_chars(&mut p, slash.as_slice());
    string_of(p.as_slice())
}

pub fn text_of(s: &str) -> (res: JsonValue)
    ensures
        is_json_string(res, s@),
{
    json_text(s)
}

pub fn string_value(s: String) -> (res: JsonValue)
    ensures
        is_json_string(res, s@),
{
    JsonValue::String(s)
}

/// The body that creates a tag.
pub fn create_tag_body(name: String, color: String, inbox: bool) -> (res: JsonValue)
    ensures
        object_fits(
            res,
            seq![
                ("name"@, FieldSpec::Text(name@)),
                ("color"@, FieldSpec::Text(color@)),
                ("is_inbox_tag"@, FieldSpec::Flag(inbox)),
            ],
        ),
{
    let ghost n = name@;
    let ghost c = color@;
    let ghost f1 = seq![("name"@, FieldSpec::Text(n))];
    let ghost f2 = f1.push(("color"@, FieldSpec::Text(c)));
    let ghost f3 = f2.push(("is_inbox_tag"@, FieldSpec::Flag(inbox)));
    let mut entries: Vec<(String, JsonValue)> = Vec::new();
    push_entry(&mut entries, "name", string_value(name), Ghost(Seq::empty()), Ghost(FieldSpec::Text(n)));
    assert(Seq::<(Seq<char>, FieldSpec)>::empty().push(("name"@, FieldSpec::Text(n))) =~= f1);
    push_entry(&mut entries, "color", string_value(color), Ghost(f1), Ghost(FieldSpec::Text(c)));
    push_entry(&mut entries, "is_inbox_tag", JsonValue::Bool(inbox), Ghost(f2), Ghost(FieldSpec::Flag(inbox)));
    assert(f3 =~= seq![
        ("name"@, FieldSpec::Text(n)),
        ("color"@, FieldSpec::Text(c)),
        ("is_inbox_tag"@, FieldSpec::Flag(inbox)),
    ]);
    proof {
        lemma_object_fits(entries, f3);
    }
    JsonValue::Object(entries)
}

/// The body that creates a correspondent or a document type: a name, a
/// matching text, and matching algorithm 0.
pub fn matcher_body(name: String, matcher: String) -> (res: JsonValue)
    ensures
        object_fits(
            res,
            seq![
                ("name"@, FieldSpec::Text(name@)),
                ("match"@, FieldSpec::Text(matcher@)),
                ("matching_algorithm"@, FieldSpec::Number(0)),
            ],
        ),
{
    let ghost n = name@;
    let ghost m = matcher@;
    let ghost f1 = seq![("name"@, FieldSpec::Text(n))];
    let ghost f2 = f1.push(("match"@, FieldSpec::Text(m)));
    let ghost f3 = f2.push(("matching_algorithm"@, FieldSpec::Number(0)));
    let mut entries: Vec<(String, JsonValue)> = Vec::new();
    assert(Seq::<(Seq<char>, FieldSpec)>::empty().push(("name"@, FieldSpec::Text(n))) =~= f1);
    push_entry(&mut entries, "name", string_value(name), Ghost(Seq::empty()), Ghost(FieldSpec::Text(n)));
    push_entry(&mut entries, "match", string_value(matcher), Ghost(f1), Ghost(FieldSpec::Text(m)));
    push_entry(&mut entries, "matching_algorithm", json_number(0), Ghost(f2), Ghost(FieldSpec::Number(0)));
    assert(f3 =~= seq![
        ("name"@, FieldSpec::Text(n)),
        ("match"@, FieldSpec::Text(m)),
        ("matching_algorithm"@, FieldSpec::Number(0)),
    ]);
    proof {
        lemma_object_fits(entries, f3);
    }
    JsonValue::Object(entries)
}


/// A nested object made of scalar fields.
pub fn nested_object(entries: Vec<(String, JsonValue)>, Ghost(fields): Ghost<Seq<(Seq<char>, FieldSpec)>>) -> (res: JsonValue)
    requires
        entries_fit(entries@, fields),
        forall|i: int| 0 <= i < fields.len() ==> is_scalar_spec((#[trigger] fields[i]).1),
    ensures
        value_fits(res, FieldSpec::Fields(fields)),
{
    let res = JsonValue::Object(entries);
    assert(entries_fit_scalars(entries@, fields)) by {
        assert forall|i: int| 0 <= i < fields.len() implies (#[trigger] entries@[i]).0@
            == fields[i].0 && scalar_fits(entries@[i].1, fields[i].1) by {
            assert(is_scalar_spec(fields[i].1));
        }
    }
    res
}

/// A field spec for a value that is no object or array of objects.
pub open spec fn is_scalar_spec(f: FieldSpec) -> bool {
    !(f is Fields) && !(f is Objects)
}

/// Entries whose fields are all scalar fit them as scalars.
pub proof fn lemma_scalar_entries(entries: Seq<(String, JsonValue)>, fields: Seq<(Seq<char>, FieldSpec)>)
    requires
        entries_fit(entries, fields),
        forall|i: int| 0 <= i < fields.len() ==> is_scalar_spec((#[trigger] fields[i]).1),
    ensures
        entries_fit_scalars(entries, fields),
{
    assert forall|i: int| 0 <= i < fields.len() implies (#[trigger] entries[i]).0@ == fields[i].0
        && scalar_fits(entries[i].1, fields[i].1) by {
        assert(is_scalar_spec(fields[i].1));
    }
}

pub open spec fn split_fields(document_id: u64, pages: Seq<char>, delete_originals: bool) -> Seq<
    (Seq<char>, FieldSpec),
> {
    seq![
        ("documents"@, FieldSpec::Numbers(seq![document_id])),
        ("method"@, FieldSpec::Text("split"@)),
        (
            "parameters"@,
            FieldSpec::Fields(
                seq![
                    ("pages"@, FieldSpec::Text(pages)),
                    ("delete_originals"@, FieldSpec::Flag(delete_originals)),
                ],
            ),
        ),
    ]
}

/// The bulk-edit body that splits a document by page groups.
pub fn split_body(document_id: u64, pages: &str, delete_originals: bool) -> (res: JsonValue)
    ensures
        object_fits(res, split_fields(document_id, pages@, delete_originals)),
{
    let ghost inner = seq![
        ("pages"@, FieldSpec::Text(pages@)),
        ("delete_originals"@, FieldSpec::Flag(delete_originals)),
    ];
    let ghost p1 = seq![("pages"@, FieldSpec::Text(pages@))];
    let mut params: Vec<(String, JsonValue)> = Vec::new();
    push_entry(&mut params, "pages", text_of(pages), Ghost(Seq::empty()), Ghost(FieldSpec::Text(pages@)));
    push_entry(
        &mut params,
        "delete_originals",
        JsonValue::Bool(delete_originals),
        Ghost(p1),
        Ghost(FieldSpec::Flag(delete_originals)),
    );
    assert(Seq::<(Seq<char>, FieldSpec)>::empty().push(("pages"@, FieldSpec::Text(pages@))) =~= seq![("pages"@, FieldSpec::Text(pages@))]);
    assert(seq![("pages"@, FieldSpec::Text(pages@))].push(("delete_originals"@, FieldSpec::Flag(delete_originals))) =~= inner);
    let parameters = nested_object(params, Ghost(inner));
    let ids: Vec<u64> = vec![document_id];
    let ghost f1 = seq![("documents"@, FieldSpec::Numbers(seq![document_id]))];
    let ghost f2 = f1.push(("method"@, FieldSpec::Text("split"@)));
    let ghost f3 = f2.push(("parameters"@, FieldSpec::Fields(inner)));
    let mut entries: Vec<(String, JsonValue)> = Vec::new();
    assert(ids@ =~= seq![document_id]);
    push_entry(&mut entries, "documents", number_array(ids.as_slice()), Ghost(Seq::empty()), Ghost(FieldSpec::Numbers(seq![document_id])));
    assert(Seq::<(Seq<char>, FieldSpec)>::empty().push(("documents"@, FieldSpec::Numbers(seq![document_id]))) =~= f1);
    push_entry(&mut entries, "method", text_of("split"), Ghost(f1), Ghost(FieldSpec::Text("split"@)));
    push_entry(&mut entries, "parameters", parameters, Ghost(f2), Ghost(FieldSpec::Fields(inner)));
    assert(f3 =~= split_fields(document_id, pages@, delete_originals));
    proof {
        lemma_object_fits(entries, f3);
    }
    JsonValue::Object(entries)
}

pub open spec fn merge_fields(document_ids: Seq<u64>, delete_originals: bool) -> Seq<
    (Seq<char>, FieldSpec),
> {
    seq![
        ("documents"@, FieldSpec::Numbers(document_ids)),
        ("method"@, FieldSpec::Text("merge"@)),
        (
            "parameters"@,
            FieldSpec::Fields(seq![("delete_originals"@, FieldSpec::Flag(delete_originals))]),
        ),
    ]
}

/// The bulk-edit body that merges documents, in the given order.
pub fn merge_body(document_ids: &[u64], delete_originals: bool) -> (res: JsonValue)
    ensures
        object_fits(res, merge_fields(document_ids@, delete_originals)),
{
    let ghost inner = seq![("delete_originals"@, FieldSpec::Flag(delete_originals))];
    let mut params: Vec<(String, JsonValue)> = Vec::new();
    push_entry(&mut params, "delete_originals", JsonValue::Bool(delete_originals), Ghost(Seq::empty()), Ghost(FieldSpec::Flag(delete_originals)));
    assert(Seq::<(Seq<char>, FieldSpec)>::empty().push(("delete_originals"@, FieldSpec::Flag(delete_originals))) =~= inner);
    let parameters = nested_object(params, Ghost(inner));
    let ghost f1 = seq![("documents"@, FieldSpec::Numbers(document_ids@))];
    let ghost f2 = f1.push(("method"@, FieldSpec::Text("merge"@)));
    let ghost f3 = f2.push(("parameters"@, FieldSpec::Fields(inner)));
    let mut entries: Vec<(String, JsonValue)> = Vec::new();
    push_entry(&mut entries, "documents", number_array(document_ids), Ghost(Seq::empty()), Ghost(FieldSpec::Numbers(document_ids@)));
    assert(Seq::<(Seq<char>, FieldSpec)>::empty().push(("documents"@, FieldSpec::Numbers(document_ids@))) =~= f1);
    push_entry(&mut entries, "method", text_of("merge"), Ghost(f1), Ghost(FieldSpec::Text("merge"@)));
    push_entry(&mut entries, "parameters", parameters, Ghost(f2), Ghost(FieldSpec::Fields(inner)));
    assert(f3 =~= merge_fields(document_ids@, delete_originals));
    proof {
        lemma_object_fits(entries, f3);
    }
    JsonValue::Object(entries)
}

/// The body that asks for an archive of documents.
/// The body of a bulk download: the documents and which of their files.
pub open spec fn bulk_download_fields(document_ids: Seq<u64>, content: Seq<char>) -> Seq<(Seq<char>, FieldSpec)> {
    seq![("documents"@, FieldSpec::Numbers(document_ids)), ("content"@, FieldSpec::Text(content))]
}

pub fn bulk_download_body(document_ids: &[u64], content: &str) -> (res: JsonValue)
    ensures
        object_fits(res, bulk_download_fields(document_ids@, content@)),
{
    let ghost f1 = seq![("documents"@, FieldSpec::Numbers(document_ids@))];
    let ghost f2 = f1.push(("content"@, FieldSpec::Text(content@)));
    let mut entries: Vec<(String, JsonValue)> = Vec::new();
    push_entry(&mut entries, "documents", number_array(document_ids), Ghost(Seq::empty()), Ghost(FieldSpec::Numbers(document_ids@)));
    assert(Seq::<(Seq<char>, FieldSpec)>::empty().push(("documents"@, FieldSpec::Numbers(document_ids@))) =~= f1);
    push_entry(&mut entries, "content", text_of(content), Ghost(f1), Ghost(FieldSpec::Text(content@)));
    assert(f2 =~= seq![("documents"@, FieldSpec::Numbers(document_ids@)), ("content"@, FieldSpec::Text(content@))]);
    proof {
        lemma_object_fits(entries, f2);
    }
    JsonValue::Object(entries)
}

pub open spec fn content_fields(document_id: u64, doc: JsonValue) -> Seq<(Seq<char>, FieldSpec)> {
    seq![
        ("id"@, FieldSpec::Number(document_id)),
        ("title"@, FieldSpec::Text(text_or(json_str(json_get(doc, "title"@)), "Untitled"@))),
        ("content"@, FieldSpec::Text(text_representation(doc))),
    ]
}

/// A document's id, title and text, as the `content` command shows them.
pub fn document_content_value(document_id: u64, document: &JsonValue) -> (res: JsonValue)
    ensures
        object_fits(res, content_fields(document_id, *document)),
{
    let title = string_or(document.get("title"), "Untitled");
    let text = document_text_representation(document);
    let ghost t = title@;
    let ghost x = text@;
    let ghost f1 = seq![("id"@, FieldSpec::Number(document_id))];
    let ghost f2 = f1.push(("title"@, FieldSpec::Text(t)));
    let ghost f3 = f2.push(("content"@, FieldSpec::Text(x)));
    let mut entries: Vec<(String, JsonValue)> = Vec::new();
    push_entry(&mut entries, "id", json_number(document_id), Ghost(Seq::empty()), Ghost(FieldSpec::Number(document_id)));
    assert(Seq::<(Seq<char>, FieldSpec)>::empty().push(("id"@, FieldSpec::Number(document_id))) =~= f1);
    push_entry(&mut entries, "title", string_value(title), Ghost(f1), Ghost(FieldSpec::Text(t)));
    push_entry(&mut entries, "content", string_value(text), Ghost(f2), Ghost(FieldSpec::Text(x)));
    assert(f3 =~= content_fields(document_id, *document));
    proof {
        lemma_object_fits(entries, f3);
    }
    JsonValue::Object(entries)
}

/// The query pairs of a full-text search.
pub fn search_pairs(query: String, page_size: u64, page: u64) -> (res: Vec<(String, String)>)
    ensures
        pairs_view(res@) == seq![
            ("query"@, query@),
            ("page_size"@, decimal(page_size as nat)),
            ("page"@, decimal(page as nat)),
        ],
{
    let mut pairs: Vec<(String, String)> = Vec::new();
    let q = chars_of(query.as_str());
    push_pair(&mut pairs, "query", q.as_slice());
    let size = decimal_chars(page_size);
    push_pair(&mut pairs, "page_size", size.as_slice());
    let p = decimal_chars(page);
    push_pair(&mut pairs, "page", p.as_slice());
    assert(pairs_view(pairs@) =~= seq![
        ("query"@, query@),
        ("page_size"@, decimal(page_size as nat)),
        ("page"@, decimal(page as nat)),
    ]);
    pairs
}

/// The query pairs of an autocompletion.
pub fn autocomplete_pairs(term: String, limit: u64) -> (res: Vec<(String, String)>)
    ensures
        pairs_view(res@) == seq![("term"@, term@), ("limit"@, decimal(limit as nat))],
{
    let mut pairs: Vec<(String, String)> = Vec::new();
    let t = chars_of(term.as_str());
    push_pair(&mut pairs, "term", t.as_slice());
    let l = decimal_chars(limit);
    push_pair(&mut pairs, "limit", l.as_slice());
    assert(pairs_view(pairs@) =~= seq![("term"@, term@), ("limit"@, decimal(limit as nat))]);
    pairs
}

/// A new document to upload: a local file and the fields to set on it.
#[derive(Clone, Debug, Default, PartialEq, Eq)]
pub struct UploadRequest {
    pub path: String,
    pub title: Option<String>,
    pub correspondent_id: Option<u64>,
    pub document_type_id: Option<u64>,
    pub tag_ids: Vec<u64>,
}

pub open spec fn upload_pairs(r: UploadRequest) -> Seq<(Seq<char>, Seq<char>)> {
    opt_pair("title"@, opt_text(r.title)) + opt_pair(
        "correspondent"@,
        opt_decimal(r.correspondent_id),
    ) + opt_pair("document_type"@, opt_decimal(r.document_type_id)) + r.tag_ids@.map_values(
        |t: u64| ("tags"@, decimal(t as nat)),
    )
}

/// No pair of `pairs` is under `key`.
pub open spec fn pairs_lack(pairs: Seq<(Seq<char>, Seq<char>)>, key: Seq<char>) -> bool {
    forall|i: int| 0 <= i < pairs.len() ==> (#[trigger] pairs[i]).0 != key
}

/// An upload sends every field of its request: a `title` pair with the
/// title, a `correspondent` and a `document_type` pair with the id in
/// decimal, each when set and absent when not, then one `tags` pair per
/// tag id, in order; nothing else.
pub proof fn law_upload_form_fields(r: UploadRequest)
    ensures
        r.title matches Some(t) ==> upload_pairs(r).contains(("title"@, t@)),
        r.title is None ==> pairs_lack(upload_pairs(r), "title"@),
        r.correspondent_id matches Some(n) ==> upload_pairs(r).contains(
            ("correspondent"@, decimal(n as nat)),
        ),
        r.correspondent_id is None ==> pairs_lack(upload_pairs(r), "correspondent"@),
        r.document_type_id matches Some(n) ==> upload_pairs(r).contains(
            ("document_type"@, decimal(n as nat)),
        ),
        r.document_type_id is None ==> pairs_lack(upload_pairs(r), "document_type"@),
        upload_pairs(r).len() == present(r.title) + present(r.correspondent_id) + present(
            r.document_type_id,
        ) + r.tag_ids.len(),
        forall|j: int|
            0 <= j < r.tag_ids.len() ==> upload_pairs(r)[upload_pairs(r).len() - r.tag_ids.len() + j]
                == ("tags"@, decimal(#[trigger] r.tag_ids[j] as nat)),
        forall|i: int|
            0 <= i < upload_pairs(r).len() - r.tag_ids.len() ==> (#[trigger] upload_pairs(r)[i]).0
                != "tags"@,
{
    reveal_strlit("title");
    reveal_strlit("correspondent");
    reveal_strlit("document_type");
    reveal_strlit("tags");
    assert("title"@.len() != "correspondent"@.len());
    assert("title"@.len() != "document_type"@.len());
    assert("correspondent"@[0] != "document_type"@[0]);
    assert("title"@.len() != "tags"@.len());
    assert("correspondent"@.len() != "tags"@.len());
    assert("document_type"@.len() != "tags"@.len());
    let a = opt_pair("title"@, opt_text(r.title));
    let b = opt_pair("correspondent"@, opt_decimal(r.correspondent_id));
    let c = opt_pair("document_type"@, opt_decimal(r.document_type_id));
    let d = r.tag_ids@.map_values(|t: u64| ("tags"@, decimal(t as nat)));
    let p = upload_pairs(r);
    assert(p == a + b + c + d);
    let h = a + b + c;
    assert forall|i: int| 0 <= i < h.len() implies ((#[trigger] h[i]).0 == "title"@ && r.title is Some)
        || (h[i].0 == "correspondent"@ && r.correspondent_id is Some) || (h[i].0 == "document_type"@
        && r.document_type_id is Some) by {
        if i < a.len() {
            assert(h[i] == a[i]);
        } else if i < a.len() + b.len() {
            assert(h[i] == b[i - a.len()]);
        } else {
            assert(h[i] == c[i - a.len() - b.len()]);
        }
    }
    assert forall|i: int| 0 <= i < p.len() - r.tag_ids.len() implies (#[trigger] p[i]).0 != "tags"@ by {
        assert(p[i] == h[i]);
    }
    assert forall|j: int| 0 <= j < r.tag_ids.len() implies p[p.len() - r.tag_ids.len() + j] == (
        "tags"@,
        decimal(#[trigger] r.tag_ids[j] as nat),
    ) by {
        assert(p[h.len() + j] == d[j]);
    }
    if r.title is Some {
        assert(p[0] == a[0]);
    } else {
        assert forall|i: int| 0 <= i < p.len() implies (#[trigger] p[i]).0 != "title"@ by {
            if i < h.len() {
                assert(p[i] == h[i]);
            } else {
                assert(p[i] == d[i - h.len()]);
            }
        }
    }
    if r.correspondent_id is Some {
        assert(p[a.len() as int] == b[0]);
    } else {
        assert forall|i: int| 0 <= i < p.len() implies (#[trigger] p[i]).0 != "correspondent"@ by {
            if i < h.len() {
                assert(p[i] == h[i]);
            } else {
                assert(p[i] == d[i - h.len()]);
            }
        }
    }
    if r.document_type_id is Some {
        assert(p[(a.len() + b.len()) as int] == c[0]);
    } else {
        assert forall|i: int| 0 <= i < p.len() implies (#[trigger] p[i]).0 != "document_type"@ by {
            if i < h.len() {
                assert(p[i] == h[i]);
            } else {
                assert(p[i] == d[i - h.len()]);
            }
        }
    }
}

/// The form fields that go with an uploaded file: title, correspondent and
/// document type when set, then one `tags` field per tag.
pub fn upload_fields(request: &UploadRequest) -> (res: Vec<(String, String)>)
    ensures
        pairs_view(res@) == upload_pairs(*request),
{
    let mut pairs: Vec<(String, String)> = Vec::new();
    push_opt_text(&mut pairs, "title", &request.title);
    push_opt_number(&mut pairs, "correspondent", request.correspondent_id);
    push_opt_number(&mut pairs, "document_type", request.document_type_id);
    let ghost head = pairs_view(pairs@);
    for i in 0..request.tag_ids.len()
        invariant
            pairs_view(pairs@) == head + request.tag_ids@.take(i as int).map_values(
                |t: u64| ("tags"@, decimal(t as nat)),
            ),
    {
        let digits = decimal_chars(request.tag_ids[i]);
        push_pair(&mut pairs, "tags", digits.as_slice());
        assert(request.tag_ids@.take(i + 1).map_values(|t: u64| ("tags"@, decimal(t as nat)))
            =~= request.tag_ids@.take(i as int).map_values(
            |t: u64| ("tags"@, decimal(t as nat)),
        ).push(("tags"@, decimal(request.tag_ids@[i as int] as nat))));
    }
    assert(request.tag_ids@.take(request.tag_ids@.len() as int) =~= request.tag_ids@);
    pairs
}


// ---------------------------------------------------------------------------
// Downloads
// ---------------------------------------------------------------------------

/// A file fetched from the server: the local name to store it under and its
/// bytes.
#[derive(Debug)]
pub struct DownloadedFile {
    pub file_name: String,
    pub bytes: Vec<u8>,
}

pub open spec fn default_file_name(document_id: u64, asset: Seq<char>) -> Seq<char> {
    "document_"@ + decimal(document_id as nat) + "_"@ + asset + ".bin"@
}

/// The local name of a downloaded file: the sanitized file name that the
/// `content-disposition` header names, else `document_{id}_{asset}.bin`.
pub open spec fn download_file_name_spec(
    headers: Seq<(String, String)>,
    document_id: u64,
    asset: Seq<char>,
) -> Seq<char> {
    match header_value(headers, "content-disposition"@) {
        Some(header) => match content_disposition_filename(header) {
            Some(name) => sanitize_filename_spec(name),
            None => default_file_name(document_id, asset),
        },
        None => default_file_name(document_id, asset),
    }
}

pub fn download_file_name(headers: &Vec<(String, String)>, document_id: u64, asset: &str) -> (res:
    String)
    ensures
        res@ == download_file_name_spec(headers@, document_id, asset@),
{
    match find_header(headers, "content-disposition") {
        Some(header) => match extract_download_filename(header.as_str()) {
            Some(name) => {
                return sanitize_filename(name.as_str());
            },
            None => {},
        },
        None => {},
    }
    let mut name = chars_of("document_");
    let digits = decimal_chars(document_id);
    append_chars(&mut name, digits.as_slice());
    let sep = chars_of("_");
    append_chars(&mut name, sep.as_slice());
    let a = chars_of(asset);
    append_chars(&mut name, a.as_slice());
    let ext = chars_of(".bin");
    append_chars(&mut name, ext.as_slice());
    string_of(name.as_slice())
}

/// Law: a downloaded file is always stored under one safe path component
/// (for an asset name made of safe characters): the name is not empty, holds
/// only ASCII letters, digits, `.`, `-` and `_`, and is neither `.` nor `..`,
/// so it cannot leave the output directory.
pub proof fn law_download_file_name_is_safe(
    headers: Seq<(String, String)>,
    document_id: u64,
    asset: Seq<char>,
)
    requires
        forall|i: int| 0 <= i < asset.len() ==> is_safe_filename_char(#[trigger] asset[i]),
    ensures
        download_file_name_spec(headers, document_id, asset).len() > 0,
        forall|i: int|
            0 <= i < download_file_name_spec(headers, document_id, asset).len()
                ==> is_safe_filename_char(
                #[trigger] download_file_name_spec(headers, document_id, asset)[i],
            ),
        download_file_name_spec(headers, document_id, asset) != "."@,
        download_file_name_spec(headers, document_id, asset) != ".."@,
{
    reveal_strlit("document_");
    reveal_strlit("_");
    reveal_strlit(".bin");
    reveal_strlit(".");
    reveal_strlit("..");
    let d = default_file_name(document_id, asset);
    crate::text::lemma_decimal_digits(document_id as nat);
    let digits = decimal(document_id as nat);
    assert forall|i: int| 0 <= i < d.len() implies is_safe_filename_char(#[trigger] d[i]) by {
        let a = "document_"@;
        let b = a + digits;
        let c = b + "_"@;
        let e = c + asset;
        if i < a.len() {
        } else if i < b.len() {
            assert(d[i] == digits[i - a.len()]);
            assert(crate::text::is_ascii_digit(digits[i - a.len()]));
        } else if i < c.len() {
        } else if i < e.len() {
            assert(d[i] == asset[i - c.len()]);
        } else {
        }
    }
    assert(d.len() > 2);
    match header_value(headers, "content-disposition"@) {
        Some(header) => match content_disposition_filename(header) {
            Some(name) => crate::filename::lemma_sanitized_name_is_component(name),
            None => {},
        },
        None => {},
    }
}

// ---------------------------------------------------------------------------
// Operations on the server
// ---------------------------------------------------------------------------

/// The path of one item of a collection.
pub open spec fn item_path_spec(collection: Seq<char>, id: u64) -> Seq<char> {
    collection + decimal(id as nat) + "/"@
}

/// The path of a file of a document.
pub open spec fn asset_path_spec(document_id: u64, asset: Seq<char>) -> Seq<char> {
    "documents/"@ + decimal(document_id as nat) + "/"@ + asset + "/"@
}

/// No query pairs.
pub open spec fn no_pairs() -> Seq<(Seq<char>, Seq<char>)> {
    Seq::empty()
}

/// `res` is the JSON answer to a request whose JSON body is an object
/// holding exactly `fields`.
pub open spec fn json_reply_to_body<T: Transport>(
    t: T,
    method: HttpMethod,
    path: Seq<char>,
    fields: Seq<(Seq<char>, FieldSpec)>,
    res: Result<JsonValue, AppError>,
) -> bool {
    exists|b: JsonValue| #[trigger] object_fits(b, fields) && json_reply(t, method, path, no_pairs(), Some(b), res)
}

/// `res` is every item of a listing at `path`, as one array (see
/// `listed`), or the error that stopped it.
pub open spec fn listing_reply<T: Transport>(t: T, path: Seq<char>, res: Result<JsonValue, AppError>) -> bool {
    match res {
        Ok(v) => v matches JsonValue::Array(items) && listed(t, path, no_pairs(), items@),
        Err(e) => listing_error(t, path, no_pairs(), e),
    }
}

/// One page of documents matching a query.
pub fn list_documents<T: Transport>(client: &ApiClient<T>, query: &DocumentQuery) -> (res: Result<
    JsonValue,
    AppError,
>)
    ensures
        json_reply(client.transport, HttpMethod::Get, "documents/"@, query_pairs_spec(*query), None, res),
{
    client.get_json("documents/", query.to_query_pairs())
}

/// The summaries of every document matching a query, over all pages.
pub fn list_all_document_summaries<T: Transport>(
    client: &ApiClient<T>,
    query: &DocumentQuery,
) -> (res: Result<Vec<DocumentSummary>, AppError>)
    ensures
        match res {
            Ok(summaries) => exists|items: Seq<JsonValue>|
                #[trigger] listed(client.transport, "documents/"@, query_pairs_spec(*query), items)
                    && are_summaries_of(summaries@, items),
            Err(e) => listing_error(client.transport, "documents/"@, query_pairs_spec(*query), e),
        },
{
    match client.paginate("documents/", query.to_query_pairs()) {
        Ok(items) => {
            let summaries = summaries_of(&items);
            assert(listed(client.transport, "documents/"@, query_pairs_spec(*query), items@));
            Ok(summaries)
        },
        Err(e) => Err(e),
    }
}

/// One document.
pub fn get_document<T: Transport>(client: &ApiClient<T>, document_id: u64) -> (res: Result<
    JsonValue,
    AppError,
>)
    ensures
        json_reply(client.transport, HttpMethod::Get, item_path_spec("documents/"@, document_id), no_pairs(), None, res),
{
    get_item(client, "documents/", document_id)
}

/// A document's id, title and text.
pub fn get_document_content<T: Transport>(client: &ApiClient<T>, document_id: u64) -> (res:
    Result<JsonValue, AppError>)
    ensures
        match res {
            Ok(v) => exists|doc: JsonValue|
                #[trigger] json_reply(
                    client.transport,
                    HttpMethod::Get,
                    item_path_spec("documents/"@, document_id),
                    no_pairs(),
                    None,
                    Ok(doc),
                ) && object_fits(v, content_fields(document_id, doc)),
            Err(e) => json_reply(client.transport, HttpMethod::Get, item_path_spec("documents/"@, document_id), no_pairs(), None, Err(e)),
        },
{
    let document = get_document(client, document_id)?;
    Ok(document_content_value(document_id, &document))
}

/// A document read into an inspector.
pub fn get_document_inspector<T: Transport>(client: &ApiClient<T>, document_id: u64) -> (res:
    Result<DocumentInspector, AppError>)
    ensures
        match res {
            Ok(inspector) => exists|doc: JsonValue|
                #[trigger] json_reply(
                    client.transport,
                    HttpMethod::Get,
                    item_path_spec("documents/"@, document_id),
                    no_pairs(),
                    None,
                    Ok(doc),
                ) && is_inspector_of(inspector, doc),
            Err(e) => json_reply(client.transport, HttpMethod::Get, item_path_spec("documents/"@, document_id), no_pairs(), None, Err(e)),
        },
{
    let document = get_document(client, document_id)?;
    Ok(document_inspector_from_value(&document))
}

/// A listing with the full-text query set to `search`.
pub fn search_documents<T: Transport>(
    client: &ApiClient<T>,
    query: DocumentQuery,
    search: String,
) -> (res: Result<JsonValue, AppError>)
    ensures
        json_reply(
            client.transport,
            HttpMethod::Get,
            "documents/"@,
            query_pairs_spec(DocumentQuery { query: Some(search), ..query }),
            None,
            res,
        ),
{
    let mut query = query;
    query.query = Some(search);
    list_documents(client, &query)
}

/// Uploads a local file as a new document, with the fields of the request
/// (see `upload_pairs`) as form fields.
pub fn upload_document<T: Transport>(client: &ApiClient<T>, request: &UploadRequest) -> (res: Result<
    JsonValue,
    AppError,
>)
    ensures
        upload_reply(client.transport, "documents/post_document/"@, upload_pairs(*request), request.path@, res),
{
    let fields = upload_fields(request);
    let file = string_of(chars_of(request.path.as_str()).as_slice());
    client.post_multipart("documents/post_document/", fields, file)
}

/// What an update of a document's fields gives: `NoFieldsToUpdate` when the
/// request changes nothing, else the reply to a PATCH of the document with
/// the changed fields.
pub open spec fn update_reply<T: Transport>(
    t: T,
    document_id: u64,
    request: UpdateRequest,
    res: Result<JsonValue, AppError>,
) -> bool {
    if update_fields(request).len() == 0 {
        res matches Err(e) && e is NoFieldsToUpdate
    } else {
        json_reply_to_body(
            t,
            HttpMethod::Patch,
            item_path_spec("documents/"@, document_id),
            update_fields(request),
            res,
        )
    }
}

/// Changes a document's fields; a request that changes nothing fails with
/// `NoFieldsToUpdate` before anything is sent.
pub fn update_document<T: Transport>(
    client: &ApiClient<T>,
    document_id: u64,
    request: &UpdateRequest,
) -> (res: Result<JsonValue, AppError>)
    ensures
        update_reply(client.transport, document_id, *request, res),
{
    let patch = update_patch(request)?;
    let ghost b = patch;
    let path = item_path("documents/", document_id);
    let res = client.patch_json(path.as_str(), patch);
    assert(object_fits(b, update_fields(*request)));
    res
}

/// The resolution of `references` against `tags` stops with `e`: the first
/// reference that is neither a number nor the exact name of a tag, and the
/// unknown-tag message for it.
pub open spec fn refused_against(e: AppError, references: Seq<String>, tags: Seq<JsonValue>) -> bool {
    exists|i: int|
        0 <= i < references.len() && #[trigger] resolve_reference(tags, references[i]@) is None
            && (forall|j: int| 0 <= j < i ==> resolve_reference(tags, references[j]@) is Some) && (
        e matches AppError::Message(m) && m@ == unknown_tag_message(references[i]@))
}

/// Resolving a non-empty list of tag references failed with `e`: the tag
/// listing failed, or some listed tags leave a reference unresolved.
pub open spec fn tag_failure<T: Transport>(t: T, references: Seq<String>, e: AppError) -> bool {
    &&& references.len() > 0
    &&& (listing_error(t, "tags/"@, no_pairs(), e) || exists|tags: Seq<JsonValue>|
        #[trigger] listed(t, "tags/"@, no_pairs(), tags) && refused_against(e, references, tags))
}

/// Resolves tag references (ids or exact names) against the server's tags;
/// with no references nothing is sent.
pub fn resolve_tag_inputs<T: Transport>(client: &ApiClient<T>, references: &[String]) -> (res:
    Result<Vec<u64>, AppError>)
    ensures
        match res {
            Ok(ids) => resolved_tags(client.transport, references@, ids@),
            Err(e) => tag_failure(client.transport, references@, e),
        },
{
    if references.len() == 0 {
        let ids: Vec<u64> = Vec::new();
        return Ok(ids);
    }
    let tags = match list_tags(client) {
        Ok(tags) => tags,
        Err(e) => {
            return Err(e);
        },
    };
    match tags.as_array() {
        Some(tag_array) => {
            let res = resolve_tag_references(tag_array, references);
            assert(listed(client.transport, "tags/"@, no_pairs(), tag_array@));
            match res {
                Ok(ids) => {
                    assert(resolved_against(ids@, references@, tag_array@));
                    Ok(ids)
                },
                Err(e) => {
                    assert(refused_against(e, references@, tag_array@));
                    Err(e)
                },
            }
        },
        None => {
            let message = chars_of("Expected tag list to be an array");
            Err(AppError::Message(string_of(message.as_slice())))
        },
    }
}

/// The tags after an edit: the document's tags with the resolved
/// additions and without the resolved removals.
pub open spec fn edited_tags<T: Transport>(
    t: T,
    document_id: u64,
    add_tags: Seq<String>,
    remove_tags: Seq<String>,
    tags: Seq<u64>,
) -> bool {
    exists|doc: JsonValue, added: Seq<u64>, removed: Seq<u64>|
        #![trigger json_reply(t, HttpMethod::Get, item_path_spec("documents/"@, document_id), no_pairs(), None, Ok(doc)), merged_tags(document_tag_ids(doc), added, removed)]
        json_reply(t, HttpMethod::Get, item_path_spec("documents/"@, document_id), no_pairs(), None, Ok(doc))
            && resolved_tags(t, add_tags, added) && resolved_tags(t, remove_tags, removed)
            && tags == merged_tags(document_tag_ids(doc), added, removed)
}

/// `ids` are what a list of tag references resolves to.
pub open spec fn resolved_tags<T: Transport>(t: T, references: Seq<String>, ids: Seq<u64>) -> bool {
    if references.len() == 0 {
        ids.len() == 0
    } else {
        exists|tags: Seq<JsonValue>| #[trigger] listed(t, "tags/"@, no_pairs(), tags) && resolved_against(ids, references, tags)
    }
}

/// Why an edit with tag changes stopped: the GET of the document failed;
/// or it came and resolving the added tags failed; or those resolved and
/// resolving the removed tags failed; or everything resolved and the PATCH
/// with the merged tags failed.
pub open spec fn edit_error<T: Transport>(
    t: T,
    document_id: u64,
    request: UpdateRequest,
    add_tags: Seq<String>,
    remove_tags: Seq<String>,
    e: AppError,
) -> bool {
    let path = item_path_spec("documents/"@, document_id);
    ||| json_reply(t, HttpMethod::Get, path, no_pairs(), None, Err(e))
    ||| exists|doc: JsonValue|
        #[trigger] json_reply(t, HttpMethod::Get, path, no_pairs(), None, Ok(doc)) && tag_failure(
            t,
            add_tags,
            e,
        )
    ||| exists|doc: JsonValue, added: Seq<u64>|
        #![trigger json_reply(t, HttpMethod::Get, path, no_pairs(), None, Ok(doc)), resolved_tags(t, add_tags, added)]
        json_reply(t, HttpMethod::Get, path, no_pairs(), None, Ok(doc)) && resolved_tags(t, add_tags, added)
            && tag_failure(t, remove_tags, e)
    ||| exists|tags: Vec<u64>|
        #[trigger] edited_tags(t, document_id, add_tags, remove_tags, tags@) && json_reply_to_body(
            t,
            HttpMethod::Patch,
            path,
            patch_fields(request, Some(tags)),
            Err(e),
        )
}

/// What an edit gives: without tag changes, what `update_document` gives;
/// with them, the reply to a PATCH of the document with its edited tags, or
/// an `edit_error`.
pub open spec fn edit_reply<T: Transport>(
    t: T,
    document_id: u64,
    request: UpdateRequest,
    add_tags: Seq<String>,
    remove_tags: Seq<String>,
    res: Result<JsonValue, AppError>,
) -> bool {
    if add_tags.len() == 0 && remove_tags.len() == 0 {
        update_reply(t, document_id, request, res)
    } else {
        match res {
            Ok(v) => exists|tags: Vec<u64>|
                #[trigger] edited_tags(t, document_id, add_tags, remove_tags, tags@)
                    && json_reply_to_body(
                    t,
                    HttpMethod::Patch,
                    item_path_spec("documents/"@, document_id),
                    patch_fields(request, Some(tags)),
                    Ok(v),
                ),
            Err(e) => edit_error(t, document_id, request, add_tags, remove_tags, e),
        }
    }
}

/// What `update_document` sends and gives: a request that changes nothing
/// is refused with `NoFieldsToUpdate`; any other is one PATCH of
/// `documents/{id}/` whose body holds an entry for each change the request
/// holds, with its new value, and none for a field it leaves alone; the
/// result is the reply to that PATCH.
pub proof fn law_update_document_sends_changes<T: Transport>(
    t: T,
    document_id: u64,
    r: UpdateRequest,
    res: Result<JsonValue, AppError>,
)
    requires
        update_reply(t, document_id, r, res),
    ensures
        (r.title is None && r.correspondent_id is None && r.document_type_id is None
            && r.tag_ids is None && r.created is None && r.custom_fields is None && r.asn is None)
            ==> (res matches Err(e) && e is NoFieldsToUpdate),
        !(r.title is None && r.correspondent_id is None && r.document_type_id is None
            && r.tag_ids is None && r.created is None && r.custom_fields is None && r.asn is None)
            ==> exists|b: JsonValue|
            #[trigger] json_reply(
                t,
                HttpMethod::Patch,
                item_path_spec("documents/"@, document_id),
                no_pairs(),
                Some(b),
                res,
            ) && entry_for(b, "title"@, text_field(r.title)) && entry_for(
                b,
                "correspondent"@,
                number_field(r.correspondent_id),
            ) && entry_for(b, "document_type"@, number_field(r.document_type_id)) && entry_for(
                b,
                "tags"@,
                numbers_field(r.tag_ids),
            ) && entry_for(b, "created"@, text_field(r.created)) && entry_for(
                b,
                "custom_fields"@,
                same_field(r.custom_fields),
            ) && entry_for(b, "archive_serial_number"@, number_field(r.asn)),
{
    law_document_update_refused(r, r.tag_ids);
    if update_fields(r).len() > 0 {
        let b = choose|b: JsonValue|
            #[trigger] object_fits(b, update_fields(r)) && json_reply(
                t,
                HttpMethod::Patch,
                item_path_spec("documents/"@, document_id),
                no_pairs(),
                Some(b),
                res,
            );
        law_document_patch_entries(r, r.tag_ids, b);
    }
}

/// What `update_tag` sends and gives: a request that changes nothing is
/// refused with `NoFieldsToUpdate`; any other is one PATCH of `tags/{id}/`
/// whose body holds an entry for each change the request holds (`name`,
/// `color`, `is_inbox_tag`), with its new value, and none for the others;
/// the result is the reply to that PATCH.
pub proof fn law_update_tag_sends_changes<T: Transport>(
    t: T,
    tag_id: u64,
    r: TagUpdateRequest,
    res: Result<JsonValue, AppError>,
)
    requires
        tag_update_fields(r).len() == 0 ==> (res matches Err(e) && e is NoFieldsToUpdate),
        tag_update_fields(r).len() > 0 ==> json_reply_to_body(
            t,
            HttpMethod::Patch,
            item_path_spec("tags/"@, tag_id),
            tag_update_fields(r),
            res,
        ),
    ensures
        (r.name is None && r.color is None && r.inbox is None) ==> (res matches Err(e)
            && e is NoFieldsToUpdate),
        !(r.name is None && r.color is None && r.inbox is None) ==> exists|b: JsonValue|
            #[trigger] json_reply(t, HttpMethod::Patch, item_path_spec("tags/"@, tag_id), no_pairs(), Some(b), res)
                && entry_for(b, "name"@, text_field(r.name)) && entry_for(b, "color"@, text_field(r.color))
                && entry_for(b, "is_inbox_tag"@, flag_field(r.inbox)),
{
    law_tag_update_refused(r);
    if tag_update_fields(r).len() > 0 {
        let b = choose|b: JsonValue|
            #[trigger] object_fits(b, tag_update_fields(r)) && json_reply(
                t,
                HttpMethod::Patch,
                item_path_spec("tags/"@, tag_id),
                no_pairs(),
                Some(b),
                res,
            );
        law_tag_patch_entries(r, b);
    }
}

/// An edit without tag changes is an update: it makes the same request and
/// gives the same result as `update_document`, fetching neither the
/// document nor the tags.
pub proof fn law_edit_without_tags_is_update<T: Transport>(
    t: T,
    document_id: u64,
    request: UpdateRequest,
    add_tags: Seq<String>,
    remove_tags: Seq<String>,
    res: Result<JsonValue, AppError>,
)
    requires
        add_tags.len() == 0,
        remove_tags.len() == 0,
    ensures
        edit_reply(t, document_id, request, add_tags, remove_tags, res) == update_reply(
            t,
            document_id,
            request,
            res,
        ),
{
}

/// Changes a document's fields and its tags: the references in `add_tags`
/// are added and those in `remove_tags` removed (see `merged_tags`). Without
/// tag changes this is `update_document`.
pub fn edit_document<T: Transport>(
    client: &ApiClient<T>,
    document_id: u64,
    request: &UpdateRequest,
    add_tags: &[String],
    remove_tags: &[String],
) -> (res: Result<JsonValue, AppError>)
    ensures
        edit_reply(client.transport, document_id, *request, add_tags@, remove_tags@, res),
{
    if add_tags.len() == 0 && remove_tags.len() == 0 {
        return update_document(client, document_id, request);
    }
    let ghost path_spec = item_path_spec("documents/"@, document_id);
    let document = match get_document(client, document_id) {
        Ok(d) => d,
        Err(e) => {
            return Err(e);
        },
    };
    let ghost doc = document;
    assert(json_reply(client.transport, HttpMethod::Get, path_spec, no_pairs(), None, Ok(doc)));
    let existing = existing_tag_ids(&document);
    let added = match resolve_tag_inputs(client, add_tags) {
        Ok(ids) => ids,
        Err(e) => {
            return Err(e);
        },
    };
    let ghost added_view = added@;
    assert(resolved_tags(client.transport, add_tags@, added_view));
    let removed = match resolve_tag_inputs(client, remove_tags) {
        Ok(ids) => ids,
        Err(e) => {
            return Err(e);
        },
    };
    let resolved = merge_tag_ids(existing, added.as_slice(), removed.as_slice());
    let ghost tags = resolved;
    assert(resolved_tags(client.transport, remove_tags@, removed@));
    assert(edited_tags(client.transport, document_id, add_tags@, remove_tags@, resolved@));
    let ghost some_tags = Some(resolved);
    assert(opt_field("tags"@, numbers_field(some_tags)).len() == 1);
    assert(patch_fields(*request, some_tags).len() > 0);
    let patch = document_patch(request, &Some(resolved))?;
    let ghost b = patch;
    let path = item_path("documents/", document_id);
    let res = client.patch_json(path.as_str(), patch);
    assert(object_fits(b, patch_fields(*request, Some(tags))));
    res
}

pub fn delete_document<T: Transport>(client: &ApiClient<T>, document_id: u64) -> (res: Result<(), AppError>)
    ensures
        unit_reply(client.transport, HttpMethod::Delete, item_path_spec("documents/"@, document_id), res),
{
    delete_item(client, "documents/", document_id)
}

/// Splits a document into new documents by page groups (bulk edit `split`).
pub fn split_document<T: Transport>(
    client: &ApiClient<T>,
    document_id: u64,
    pages: &str,
    delete_originals: bool,
) -> (res: Result<JsonValue, AppError>)
    ensures
        json_reply_to_body(
            client.transport,
            HttpMethod::Post,
            "documents/bulk_edit/"@,
            split_fields(document_id, pages@, delete_originals),
            res,
        ),
{
    let body = split_body(document_id, pages, delete_originals);
    let ghost b = body;
    let res = client.post_json("documents/bulk_edit/", body);
    assert(object_fits(b, split_fields(document_id, pages@, delete_originals)));
    assert(no_pairs() =~= Seq::<(Seq<char>, Seq<char>)>::empty());
    res
}

/// Merges documents into a new one, pages in the order of the ids (bulk edit
/// `merge`).
pub fn merge_documents<T: Transport>(
    client: &ApiClient<T>,
    document_ids: &[u64],
    delete_originals: bool,
) -> (res: Result<JsonValue, AppError>)
    ensures
        json_reply_to_body(
            client.transport,
            HttpMethod::Post,
            "documents/bulk_edit/"@,
            merge_fields(document_ids@, delete_originals),
            res,
        ),
{
    let body = merge_body(document_ids, delete_originals);
    let ghost b = body;
    let res = client.post_json("documents/bulk_edit/", body);
    assert(object_fits(b, merge_fields(document_ids@, delete_originals)));
    res
}

/// `res` is a file of a document fetched with the given query pairs: the
/// bytes of the answer, named after its headers.
pub open spec fn file_reply<T: Transport>(
    t: T,
    document_id: u64,
    asset: Seq<char>,
    params: Seq<(Seq<char>, Seq<char>)>,
    res: Result<DownloadedFile, AppError>,
) -> bool {
    match res {
        Ok(file) => exists|r: ResponseData|
            #[trigger] sent(t, HttpMethod::Get, asset_path_spec(document_id, asset), params, None, Ok(r))
                && file.file_name@ == download_file_name_spec(r.headers@, document_id, asset)
                && file.bytes@ == r.body@,
        Err(e) => sent(t, HttpMethod::Get, asset_path_spec(document_id, asset), params, None, Err(e)),
    }
}

/// Fetches a file of a document and names it (see `download_file_name_spec`).
fn download_asset<T: Transport>(
    client: &ApiClient<T>,
    document_id: u64,
    asset: &str,
    params: Vec<(String, String)>,
) -> (res: Result<DownloadedFile, AppError>)
    ensures
        file_reply(client.transport, document_id, asset@, pairs_view(params@), res),
{
    let ghost pv = pairs_view(params@);
    let path = asset_path(document_id, asset);
    let response = client.get_raw(path.as_str(), params)?;
    let ghost raw = response;
    let file_name = download_file_name(&response.headers, document_id, asset);
    assert(sent(client.transport, HttpMethod::Get, asset_path_spec(document_id, asset@), pv, None, Ok(raw)));
    Ok(DownloadedFile { file_name, bytes: response.body })
}

/// The query of a document download: `original=true` for the original file.
pub open spec fn download_params(original: bool) -> Seq<(Seq<char>, Seq<char>)> {
    if original {
        seq![("original"@, "true"@)]
    } else {
        Seq::empty()
    }
}

/// A document's file: the archived version, or the original when asked.
pub fn download_document<T: Transport>(client: &ApiClient<T>, document_id: u64, original: bool) -> (res:
    Result<DownloadedFile, AppError>)
    ensures
        file_reply(client.transport, document_id, "download"@, download_params(original), res),
{
    let mut params: Vec<(String, String)> = Vec::new();
    if original {
        let t = chars_of("true");
        push_pair(&mut params, "original", t.as_slice());
    }
    assert(pairs_view(params@) =~= download_params(original));
    download_asset(client, document_id, "download", params)
}

/// A download asked for the original sends the one query pair
/// `original=true`; any other download sends no query, and so gets the
/// archived version.
pub proof fn law_download_original_query(original: bool)
    ensures
        original ==> download_params(original).len() == 1 && download_params(original).contains(
            ("original"@, "true"@),
        ),
        !original ==> download_params(original).len() == 0,
{
    if original {
        assert(download_params(original)[0] == ("original"@, "true"@));
    }
}

/// A document's preview.
pub fn download_preview<T: Transport>(client: &ApiClient<T>, document_id: u64) -> (res: Result<
    DownloadedFile,
    AppError,
>)
    ensures
        file_reply(client.transport, document_id, "preview"@, no_pairs(), res),
{
    let params: Vec<(String, String)> = Vec::new();
    assert(pairs_view(params@) =~= no_pairs());
    download_asset(client, document_id, "preview", params)
}

/// A document's thumbnail.
pub fn download_thumbnail<T: Transport>(client: &ApiClient<T>, document_id: u64) -> (res: Result<
    DownloadedFile,
    AppError,
>)
    ensures
        file_reply(client.transport, document_id, "thumb"@, no_pairs(), res),
{
    let params: Vec<(String, String)> = Vec::new();
    assert(pairs_view(params@) =~= no_pairs());
    download_asset(client, document_id, "thumb", params)
}

/// Downloads several documents, one after the other; a failure is recorded
/// and the others are still fetched.
pub fn bulk_download<T: Transport>(client: &ApiClient<T>, document_ids: &[u64], original: bool) -> (res:
    Vec<(u64, Result<DownloadedFile, AppError>)>)
    ensures
        res@.len() == document_ids@.len(),
        forall|i: int|
            0 <= i < res@.len() ==> (#[trigger] res@[i]).0 == document_ids@[i] && file_reply(
                client.transport,
                document_ids@[i],
                "download"@,
                download_params(original),
                res@[i].1,
            ),
{
    let mut results: Vec<(u64, Result<DownloadedFile, AppError>)> = Vec::new();
    for i in 0..document_ids.len()
        invariant
            results@.len() == i,
            forall|j: int|
                0 <= j < i ==> (#[trigger] results@[j]).0 == document_ids@[j] && file_reply(
                    client.transport,
                    document_ids@[j],
                    "download"@,
                    download_params(original),
                    results@[j].1,
                ),
    {
        let id = document_ids[i];
        let file = download_document(client, id, original);
        results.push((id, file));
    }
    results
}

/// Downloads several documents as one archive from the server's bulk
/// download; `content` chooses archived, original or both files.
pub fn bulk_download_zip<T: Transport>(client: &ApiClient<T>, document_ids: &[u64], content: &str) -> (res:
    Result<Vec<u8>, AppError>)
    ensures
        match res {
            Ok(bytes) => exists|b: JsonValue, r: ResponseData|
                #![trigger object_fits(b, bulk_download_fields(document_ids@, content@)), sent(client.transport, HttpMethod::Post, "documents/bulk_download/"@, no_pairs(), Some(b), Ok(r))]
                object_fits(b, bulk_download_fields(document_ids@, content@))
                    && sent(client.transport, HttpMethod::Post, "documents/bulk_download/"@, no_pairs(), Some(b), Ok(r))
                    && bytes@ == r.body@,
            Err(e) => exists|b: JsonValue|
                #[trigger] object_fits(b, bulk_download_fields(document_ids@, content@))
                    && sent(client.transport, HttpMethod::Post, "documents/bulk_download/"@, no_pairs(), Some(b), Err(e)),
        },
{
    let body = bulk_download_body(document_ids, content);
    let ghost b = body;
    let res = client.post_json_raw("documents/bulk_download/", body);
    assert(object_fits(b, bulk_download_fields(document_ids@, content@)));
    match res {
        Ok(response) => {
            let ghost r = response;
            assert(sent(client.transport, HttpMethod::Post, "documents/bulk_download/"@, no_pairs(), Some(b), Ok(r)));
            Ok(response.body)
        },
        Err(e) => Err(e),
    }
}

/// Every item of a listing, as one array.
fn list_all<T: Transport>(client: &ApiClient<T>, path: &str) -> (res: Result<JsonValue, AppError>)
    ensures
        listing_reply(client.transport, path@, res),
{
    let query: Vec<(String, String)> = Vec::new();
    assert(pairs_view(query@) =~= no_pairs());
    match client.paginate(path, query) {
        Ok(items) => Ok(JsonValue::Array(items)),
        Err(e) => Err(e),
    }
}

fn get_item<T: Transport>(client: &ApiClient<T>, collection: &str, id: u64) -> (res: Result<
    JsonValue,
    AppError,
>)
    ensures
        json_reply(client.transport, HttpMethod::Get, item_path_spec(collection@, id), no_pairs(), None, res),
{
    let path = item_path(collection, id);
    let query: Vec<(String, String)> = Vec::new();
    assert(pairs_view(query@) =~= no_pairs());
    client.get_json(path.as_str(), query)
}

fn delete_item<T: Transport>(client: &ApiClient<T>, collection: &str, id: u64) -> (res: Result<(), AppError>)
    ensures
        unit_reply(client.transport, HttpMethod::Delete, item_path_spec(collection@, id), res),
{
    let path = item_path(collection, id);
    client.delete(path.as_str())
}

pub fn list_tags<T: Transport>(client: &ApiClient<T>) -> (res: Result<JsonValue, AppError>)
    ensures
        listing_reply(client.transport, "tags/"@, res),
{
    list_all(client, "tags/")
}

pub fn get_tag<T: Transport>(client: &ApiClient<T>, tag_id: u64) -> (res: Result<JsonValue, AppError>)
    ensures
        json_reply(client.transport, HttpMethod::Get, item_path_spec("tags/"@, tag_id), no_pairs(), None, res),
{
    get_item(client, "tags/", tag_id)
}

/// The fields of a new tag.
pub open spec fn new_tag_fields(name: Seq<char>, color: Seq<char>, inbox: bool) -> Seq<(Seq<char>, FieldSpec)> {
    seq![
        ("name"@, FieldSpec::Text(name)),
        ("color"@, FieldSpec::Text(color)),
        ("is_inbox_tag"@, FieldSpec::Flag(inbox)),
    ]
}

/// The fields of a new correspondent or document type.
pub open spec fn new_matcher_fields(name: Seq<char>, matcher: Seq<char>) -> Seq<(Seq<char>, FieldSpec)> {
    seq![
        ("name"@, FieldSpec::Text(name)),
        ("match"@, FieldSpec::Text(matcher)),
        ("matching_algorithm"@, FieldSpec::Number(0)),
    ]
}

pub fn create_tag<T: Transport>(client: &ApiClient<T>, name: String, color: String, inbox: bool) -> (res:
    Result<JsonValue, AppError>)
    ensures
        json_reply_to_body(client.transport, HttpMethod::Post, "tags/"@, new_tag_fields(name@, color@, inbox), res),
{
    let ghost f = new_tag_fields(name@, color@, inbox);
    let body = create_tag_body(name, color, inbox);
    let ghost b = body;
    let res = client.post_json("tags/", body);
    assert(object_fits(b, f));
    res
}

/// Changes a tag; a request that changes nothing fails with
/// `NoFieldsToUpdate` before anything is sent.
pub fn update_tag<T: Transport>(client: &ApiClient<T>, tag_id: u64, request: &TagUpdateRequest) -> (res:
    Result<JsonValue, AppError>)
    ensures
        tag_update_fields(*request).len() == 0 ==> (res matches Err(e) && e is NoFieldsToUpdate),
        tag_update_fields(*request).len() > 0 ==> json_reply_to_body(
            client.transport,
            HttpMethod::Patch,
            item_path_spec("tags/"@, tag_id),
            tag_update_fields(*request),
            res,
        ),
{
    let patch = tag_patch(request)?;
    let ghost b = patch;
    let path = item_path("tags/", tag_id);
    let res = client.patch_json(path.as_str(), patch);
    assert(object_fits(b, tag_update_fields(*request)));
    res
}

pub fn delete_tag<T: Transport>(client: &ApiClient<T>, tag_id: u64) -> (res: Result<(), AppError>)
    ensures
        unit_reply(client.transport, HttpMethod::Delete, item_path_spec("tags/"@, tag_id), res),
{
    delete_item(client, "tags/", tag_id)
}

pub fn list_correspondents<T: Transport>(client: &ApiClient<T>) -> (res: Result<JsonValue, AppError>)
    ensures
        listing_reply(client.transport, "correspondents/"@, res),
{
    list_all(client, "correspondents/")
}

pub fn get_correspondent<T: Transport>(client: &ApiClient<T>, correspondent_id: u64) -> (res:
    Result<JsonValue, AppError>)
    ensures
        json_reply(client.transport, HttpMethod::Get, item_path_spec("correspondents/"@, correspondent_id), no_pairs(), None, res),
{
    get_item(client, "correspondents/", correspondent_id)
}

pub fn create_correspondent<T: Transport>(client: &ApiClient<T>, name: String, matcher: String) -> (res:
    Result<JsonValue, AppError>)
    ensures
        json_reply_to_body(client.transport, HttpMethod::Post, "correspondents/"@, new_matcher_fields(name@, matcher@), res),
{
    let ghost f = new_matcher_fields(name@, matcher@);
    let body = matcher_body(name, matcher);
    let ghost b = body;
    let res = client.post_json("correspondents/", body);
    assert(object_fits(b, f));
    res
}

pub fn delete_correspondent<T: Transport>(client: &ApiClient<T>, correspondent_id: u64) -> (res: Result<
    (),
    AppError,
>)
    ensures
        unit_reply(client.transport, HttpMethod::Delete, item_path_spec("correspondents/"@, correspondent_id), res),
{
    delete_item(client, "correspondents/", correspondent_id)
}

pub fn list_document_types<T: Transport>(client: &ApiClient<T>) -> (res: Result<JsonValue, AppError>)
    ensures
        listing_reply(client.transport, "document_types/"@, res),
{
    list_all(client, "document_types/")
}

pub fn get_document_type<T: Transport>(client: &ApiClient<T>, document_type_id: u64) -> (res:
    Result<JsonValue, AppError>)
    ensures
        json_reply(client.transport, HttpMethod::Get, item_path_spec("document_types/"@, document_type_id), no_pairs(), None, res),
{
    get_item(client, "document_types/", document_type_id)
}

pub fn create_document_type<T: Transport>(client: &ApiClient<T>, name: String, matcher: String) -> (res:
    Result<JsonValue, AppError>)
    ensures
        json_reply_to_body(client.transport, HttpMethod::Post, "document_types/"@, new_matcher_fields(name@, matcher@), res),
{
    let ghost f = new_matcher_fields(name@, matcher@);
    let body = matcher_body(name, matcher);
    let ghost b = body;
    let res = client.post_json("document_types/", body);
    assert(object_fits(b, f));
    res
}

pub fn delete_document_type<T: Transport>(client: &ApiClient<T>, document_type_id: u64) -> (res: Result<
    (),
    AppError,
>)
    ensures
        unit_reply(client.transport, HttpMethod::Delete, item_path_spec("document_types/"@, document_type_id), res),
{
    delete_item(client, "document_types/", document_type_id)
}

pub fn list_tasks<T: Transport>(client: &ApiClient<T>) -> (res: Result<JsonValue, AppError>)
    ensures
        listing_reply(client.transport, "tasks/"@, res),
{
    list_all(client, "tasks/")
}

pub fn get_task<T: Transport>(client: &ApiClient<T>, task_id: u64) -> (res: Result<JsonValue, AppError>)
    ensures
        json_reply(client.transport, HttpMethod::Get, item_path_spec("tasks/"@, task_id), no_pairs(), None, res),
{
    get_item(client, "tasks/", task_id)
}

/// The server's full-text search.
pub fn query_search<T: Transport>(client: &ApiClient<T>, query: String, page_size: u64, page: u64) -> (res:
    Result<JsonValue, AppError>)
    ensures
        json_reply(
            client.transport,
            HttpMethod::Get,
            "search/"@,
            seq![("query"@, query@), ("page_size"@, decimal(page_size as nat)), ("page"@, decimal(page as nat))],
            None,
            res,
        ),
{
    client.get_json("search/", search_pairs(query, page_size, page))
}

/// The server's autocompletion of a search term.
pub fn autocomplete_search<T: Transport>(client: &ApiClient<T>, term: String, limit: u64) -> (res:
    Result<JsonValue, AppError>)
    ensures
        json_reply(
            client.transport,
            HttpMethod::Get,
            "search/autocomplete/"@,
            seq![("term"@, term@), ("limit"@, decimal(limit as nat))],
            None,
            res,
        ),
{
    client.get_json("search/autocomplete/", autocomplete_pairs(term, limit))
}

/// The server's status, which also checks the credentials.
pub fn ping<T: Transport>(client: &ApiClient<T>, base_url: &str) -> (res: Result<JsonValue, AppError>)
    ensures
        json_reply(client.transport, HttpMethod::Get, "status/"@, no_pairs(), None, res),
{
    client.ping(base_url)
}

/// The same as `ping`.
pub fn status<T: Transport>(client: &ApiClient<T>, base_url: &str) -> (res: Result<JsonValue, AppError>)
    ensures
        json_reply(client.transport, HttpMethod::Get, "status/"@, no_pairs(), None, res),
{
    ping(client, base_url)
}

/// The fields of the operational overview: status, statistics and tasks.
pub open spec fn overview_fields(a: JsonValue, b: JsonValue, c: JsonValue) -> Seq<(Seq<char>, FieldSpec)> {
    seq![
        ("status"@, FieldSpec::Exactly(a)),
        ("statistics"@, FieldSpec::Exactly(b)),
        ("tasks"@, FieldSpec::Exactly(c)),
    ]
}

/// The three answers the overview is made of.
pub open spec fn overview_parts<T: Transport>(t: T, a: JsonValue, b: JsonValue, c: JsonValue) -> bool {
    &&& json_reply(t, HttpMethod::Get, "status/"@, no_pairs(), None, Ok(a))
    &&& json_reply(t, HttpMethod::Get, "statistics/"@, no_pairs(), None, Ok(b))
    &&& listing_reply(t, "tasks/"@, Ok(c))
}

/// Why the overview stopped: the status request failed; or the status came
/// and the statistics request failed; or both came and the task listing
/// failed.
pub open spec fn overview_error<T: Transport>(t: T, e: AppError) -> bool {
    ||| json_reply(t, HttpMethod::Get, "status/"@, no_pairs(), None, Err(e))
    ||| exists|a: JsonValue|
        #[trigger] json_reply(t, HttpMethod::Get, "status/"@, no_pairs(), None, Ok(a))
            && json_reply(t, HttpMethod::Get, "statistics/"@, no_pairs(), None, Err(e))
    ||| exists|a: JsonValue, b: JsonValue|
        #![trigger json_reply(t, HttpMethod::Get, "status/"@, no_pairs(), None, Ok(a)), json_reply(t, HttpMethod::Get, "statistics/"@, no_pairs(), None, Ok(b))]
        json_reply(t, HttpMethod::Get, "status/"@, no_pairs(), None, Ok(a))
            && json_reply(t, HttpMethod::Get, "statistics/"@, no_pairs(), None, Ok(b))
            && listing_reply(t, "tasks/"@, Err(e))
}

/// Status, statistics and tasks together.
pub fn operational_overview<T: Transport>(client: &ApiClient<T>, base_url: &str) -> (res: Result<
    JsonValue,
    AppError,
>)
    ensures
        match res {
            Ok(v) => exists|a: JsonValue, b: JsonValue, c: JsonValue|
                #[trigger] overview_parts(client.transport, a, b, c) && object_fits(v, overview_fields(a, b, c)),
            Err(e) => overview_error(client.transport, e),
        },
{
    let status_value = match status(client, base_url) {
        Ok(v) => v,
        Err(e) => {
            return Err(e);
        },
    };
    let ghost a0 = status_value;
    let query: Vec<(String, String)> = Vec::new();
    assert(pairs_view(query@) =~= no_pairs());
    let statistics = match client.get_json("statistics/", query) {
        Ok(v) => v,
        Err(e) => {
            assert(json_reply(client.transport, HttpMethod::Get, "status/"@, no_pairs(), None, Ok(a0)));
            return Err(e);
        },
    };
    let ghost b0 = statistics;
    let tasks = match list_tasks(client) {
        Ok(v) => v,
        Err(e) => {
            assert(json_reply(client.transport, HttpMethod::Get, "status/"@, no_pairs(), None, Ok(a0)));
            assert(json_reply(client.transport, HttpMethod::Get, "statistics/"@, no_pairs(), None, Ok(b0)));
            return Err(e);
        },
    };
    let ghost a = status_value;
    let ghost b = statistics;
    let ghost c = tasks;
    assert(overview_parts(client.transport, a, b, c));
    let ghost mut f: Seq<(Seq<char>, FieldSpec)> = Seq::empty();
    let mut entries: Vec<(String, JsonValue)> = Vec::new();
    push_entry(&mut entries, "status", status_value, Ghost(f), Ghost(FieldSpec::Exactly(a)));
    proof { f = f.push(("status"@, FieldSpec::Exactly(a))); }
    push_entry(&mut entries, "statistics", statistics, Ghost(f), Ghost(FieldSpec::Exactly(b)));
    proof { f = f.push(("statistics"@, FieldSpec::Exactly(b))); }
    push_entry(&mut entries, "tasks", tasks, Ghost(f), Ghost(FieldSpec::Exactly(c)));
    proof { f = f.push(("tasks"@, FieldSpec::Exactly(c))); }
    assert(f =~= overview_fields(a, b, c));
    proof {
        lemma_object_fits(entries, f);
    }
    Ok(JsonValue::Object(entries))
}

/// What the dashboard shows: the server status and the latest task.
#[derive(Debug)]
pub struct DashboardSnapshot {
    pub project: JsonValue,
    pub documents: Vec<DocumentSummary>,
    pub latest_task: Option<TaskSummary>,
}

/// The dashboard: the server status, no documents yet, and the latest task.
pub fn dashboard<T: Transport>(client: &ApiClient<T>, base_url: &str) -> (res: Result<
    DashboardSnapshot,
    AppError,
>)
    ensures
        match res {
            Ok(d) => d.documents@.len() == 0 && json_reply(client.transport, HttpMethod::Get, "status/"@, no_pairs(), None, Ok(d.project))
                && exists|tasks: JsonValue| #[trigger] listing_reply(client.transport, "tasks/"@, Ok(tasks))
                    && latest_task_of(d.latest_task, tasks),
            Err(e) => json_reply(client.transport, HttpMethod::Get, "status/"@, no_pairs(), None, Err(e))
                || exists|p: JsonValue|
                #[trigger] json_reply(client.transport, HttpMethod::Get, "status/"@, no_pairs(), None, Ok(p))
                    && listing_reply(client.transport, "tasks/"@, Err(e)),
        },
{
    let project = match status(client, base_url) {
        Ok(v) => v,
        Err(e) => {
            return Err(e);
        },
    };
    let ghost p = project;
    let tasks = match list_tasks(client) {
        Ok(v) => v,
        Err(e) => {
            assert(json_reply(client.transport, HttpMethod::Get, "status/"@, no_pairs(), None, Ok(p)));
            return Err(e);
        },
    };
    let latest_task = latest_task_summary(&tasks);
    let ghost t = tasks;
    assert(listing_reply(client.transport, "tasks/"@, Ok(t)));
    Ok(DashboardSnapshot { project, documents: Vec::new(), latest_task })
}

} // verus!
