//! A transport that answers from a built-in fixture library instead of a
//! server, so that every command can be tried without a Paperless-ngx
//! instance.
use vstd::prelude::*;

use crate::api::{pairs_view, Endpoint, HttpMethod, RequestData, ResponseData, Transport};
use crate::error::AppError;
use crate::json::{
    encode_json, is_json_string, json_bool, json_encoding, json_get, json_i64,
    json_number, json_text, JsonValue,
};
use crate::demo_data::{
    demo_documents, document_rows, find_by_id, first_row, first_with_id, lemma_demo_rows,
    lemma_first_with_id, lemma_first_with_id_bounds, lemma_item_text, lemma_scalar_object, row_text,
    rows_have_ids, text_of_field, item_text, field_get, correspondent_rows, demo_correspondents,
    demo_document_types, demo_tags, document_row_filter, document_type_rows, filter_documents,
    lemma_document_filter, lemma_name_filter, matching_named_items, name_row_filter, tag_rows,
    lemma_item_titles, matching_titles, title_suggestions, demo_tasks, task_rows,
    rows_scalar, scalar_row, Fields, row_id, lemma_first_row_at, demo_document_table,
    document_fields,
};
use crate::services::{
    entries_fit, items_fit, json_int, lemma_object_fits, object_fits,
    push_entry, value_fits, FieldSpec,
};
use crate::text::{
    append_chars, str_is, trim_char, trim_start_seq, trim_start_text, ascii_lowercase, char_seqs, chars_equal, chars_of, decimal, decimal_chars, is_ascii_alphanumeric, is_ascii_digit, is_ascii_lower,
    join, join_chars, lower_char, parse_u64, parse_u64_spec, split_chars, split_on, string_of,
    to_ascii_lowercase, trim_matches, trim_start_char, trim_start_matches, ascii_lower_char,
    is_alphanumeric, is_ascii_upper, lemma_filter_all, lemma_join_chars, lemma_join_ends,
    lemma_split_join, lemma_split_pieces, lemma_join_no_double_separator, lemma_trim_matches_outer,
    lemma_trim_matches_trailing, lemma_trim_matches_none,
};

verus! {

broadcast use vstd::string::group_string_axioms;

// ---------------------------------------------------------------------------
// Responses
// ---------------------------------------------------------------------------

pub open spec fn demo_base_url() -> Seq<char> {
    "https://demo.paperless.local"@
}

/// The URL of a demo API path.
pub open spec fn demo_url_spec(path: Seq<char>) -> Seq<char> {
    demo_base_url() + "/api/"@ + trim_start_matches(path, '/')
}

fn demo_url_chars(path: &[char]) -> (res: Vec<char>)
    ensures
        res@ == demo_url_spec(path@),
{
    let mut url = chars_of("https://demo.paperless.local");
    let api = chars_of("/api/");
    append_chars(&mut url, api.as_slice());
    let rest = trim_start_char(path, '/');
    append_chars(&mut url, rest.as_slice());
    url
}

/// The URL of a demo API path: the demo base URL, `/api/`, and the path
/// without leading slashes.
pub fn demo_url(path: &str) -> (res: String)
    ensures
        res@ == demo_url_spec(path@),
{
    let p = chars_of(path);
    let url = demo_url_chars(p.as_slice());
    string_of(url.as_slice())
}

/// A demo JSON answer: status 200 at the URL of `path`, a JSON content type,
/// and the JSON text of `body`.
pub open spec fn is_json_response(r: ResponseData, path: Seq<char>, body: JsonValue) -> bool {
    &&& r.status == 200
    &&& r.url@ == demo_url_spec(path)
    &&& pairs_view(r.headers@) == seq![("content-type"@, "application/json"@)]
    &&& json_encoding(body) == Some(r.body@)
}

fn header(name: &str, value: &[char]) -> (res: (String, String))
    ensures
        res.0@ == name@,
        res.1@ == value@,
{
    let n = chars_of(name);
    (string_of(n.as_slice()), string_of(value))
}

/// The answer with a JSON body: a response that carries it.
pub open spec fn json_answer(res: Result<ResponseData, AppError>, path: Seq<char>, body: JsonValue) -> bool {
    res matches Ok(r) && is_json_response(r, path, body)
}

/// A JSON answer at `path` whose body is an object holding exactly `fields`.
pub open spec fn answers_object(res: Result<ResponseData, AppError>, path: Seq<char>, fields: Fields) -> bool {
    exists|v: JsonValue| #[trigger] object_fits(v, fields) && json_answer(res, path, v)
}

/// A JSON answer at `path` whose body fits `f`.
pub open spec fn answers_value(res: Result<ResponseData, AppError>, path: Seq<char>, f: FieldSpec) -> bool {
    exists|v: JsonValue| #[trigger] value_fits(v, f) && json_answer(res, path, v)
}

/// The answer for an identifier that names nothing.
pub open spec fn is_not_found(res: Result<ResponseData, AppError>, path: Seq<char>) -> bool {
    res matches Err(AppError::Http { status, url, message }) && status == 404 && url@
        == demo_url_spec(path) && message@ == "Resource not found."@
}

/// The answer for an identifier that is no number.
pub open spec fn is_invalid_id(res: Result<ResponseData, AppError>, raw: Seq<char>) -> bool {
    res matches Err(AppError::Message(m)) && m@ == invalid_id_message(raw)
}

fn ok_json(path: &[char], body: JsonValue) -> (res: Result<ResponseData, AppError>)
    ensures
        json_answer(res, path@, body),
{
    let bytes = encode_json(&body)?;
    let mut headers: Vec<(String, String)> = Vec::new();
    let json_type = chars_of("application/json");
    headers.push(header("content-type", json_type.as_slice()));
    assert(pairs_view(headers@) =~= seq![("content-type"@, "application/json"@)]);
    let url = demo_url_chars(path);
    Ok(ResponseData { status: 200, url: string_of(url.as_slice()), headers, body: bytes })
}

/// The headers of a demo file answer.
pub open spec fn binary_headers(mime: Seq<char>, disposition: Option<Seq<char>>) -> Seq<
    (Seq<char>, Seq<char>),
> {
    seq![("content-type"@, mime)] + match disposition {
        Some(d) => seq![("content-disposition"@, d)],
        None => Seq::empty(),
    }
}

/// A demo file answer: status 200 at the URL of `path`, its MIME type, an
/// optional `content-disposition`, and the bytes.
pub fn ok_binary(path: &str, body: Vec<u8>, mime: &str, content_disposition: Option<String>) -> (res:
    Result<ResponseData, AppError>)
    ensures
        res matches Ok(r) && r.status == 200 && r.url@ == demo_url_spec(path@) && pairs_view(
            r.headers@,
        ) == binary_headers(
            mime@,
            match content_disposition {
                Some(d) => Some(d@),
                None => None,
            },
        ) && r.body@ == body@,
{
    let mut headers: Vec<(String, String)> = Vec::new();
    let m = chars_of(mime);
    headers.push(header("content-type", m.as_slice()));
    match content_disposition {
        Some(value) => {
            let v = chars_of(value.as_str());
            headers.push(header("content-disposition", v.as_slice()));
        },
        None => {},
    }
    assert(pairs_view(headers@) =~= binary_headers(
        mime@,
        match content_disposition {
            Some(d) => Some(d@),
            None => None,
        },
    ));
    let p = chars_of(path);
    let url = demo_url_chars(p.as_slice());
    Ok(ResponseData { status: 200, url: string_of(url.as_slice()), headers, body })
}

/// The demo answer to a deletion: status 204 and nothing else.
pub fn empty_response(path: &str) -> (res: Result<ResponseData, AppError>)
    ensures
        res matches Ok(r) && r.status == 204 && r.url@ == demo_url_spec(path@) && r.headers@.len()
            == 0 && r.body@.len() == 0,
{
    let p = chars_of(path);
    let url = demo_url_chars(p.as_slice());
    Ok(ResponseData { status: 204, url: string_of(url.as_slice()), headers: Vec::new(), body: Vec::new() })
}

fn not_found(path: &[char], message: &str) -> (res: AppError)
    ensures
        res matches AppError::Http { status, url, message: m } && status == 404 && url@
            == demo_url_spec(path@) && m@ == message@,
{
    let url = demo_url_chars(path);
    let m = chars_of(message);
    AppError::Http { status: 404, url: string_of(url.as_slice()), message: string_of(m.as_slice()) }
}

// ---------------------------------------------------------------------------
// Query parameters and identifiers
// ---------------------------------------------------------------------------

/// The value of the first query pair with the given key.
pub open spec fn pairs_lookup(pairs: Seq<(Seq<char>, Seq<char>)>, key: Seq<char>) -> Option<Seq<char>>
    decreases pairs.len(),
{
    if pairs.len() == 0 {
        None
    } else if pairs[0].0 == key {
        Some(pairs[0].1)
    } else {
        pairs_lookup(pairs.drop_first(), key)
    }
}

/// The value of the first query pair with the given key.
pub fn query_value(query: &[(String, String)], key: &str) -> (res: Option<String>)
    ensures
        match res {
            Some(v) => pairs_lookup(pairs_view(query@), key@) == Some(v@),
            None => pairs_lookup(pairs_view(query@), key@) is None,
        },
{
    let ghost pv = pairs_view(query@);
    let k = chars_of(key);
    let mut i: usize = 0;
    assert(pv.skip(0) =~= pv);
    while i < query.len()
        invariant
            i <= query@.len(),
            pv == pairs_view(query@),
            k@ == key@,
            pairs_lookup(pv, key@) == pairs_lookup(pv.skip(i as int), key@),
        decreases query@.len() - i,
    {
        let ghost rest = pv.skip(i as int);
        assert(rest[0] == (query@[i as int].0@, query@[i as int].1@));
        let candidate = chars_of(query[i].0.as_str());
        if chars_equal(candidate.as_slice(), k.as_slice()) {
            let v = chars_of(query[i].1.as_str());
            return Some(string_of(v.as_slice()));
        }
        assert(rest.drop_first() =~= pv.skip(i + 1));
        i = i + 1;
    }
    None
}

fn query_chars(query: &[(String, String)], key: &str) -> (res: Option<Vec<char>>)
    ensures
        match res {
            Some(v) => pairs_lookup(pairs_view(query@), key@) == Some(v@),
            None => pairs_lookup(pairs_view(query@), key@) is None,
        },
{
    match query_value(query, key) {
        Some(v) => Some(chars_of(v.as_str())),
        None => None,
    }
}

pub open spec fn invalid_id_message(raw: Seq<char>) -> Seq<char> {
    "Invalid demo identifier: "@ + raw
}

/// A demo identifier: a `u64` in decimal.
pub fn parse_id(raw: &str) -> (res: Result<u64, AppError>)
    ensures
        match parse_u64_spec(raw@) {
            Some(n) => res == Ok::<u64, AppError>(n),
            None => res matches Err(AppError::Message(m)) && m@ == invalid_id_message(raw@),
        },
{
    let chars = chars_of(raw);
    parse_id_chars(chars.as_slice())
}

fn parse_id_chars(raw: &[char]) -> (res: Result<u64, AppError>)
    ensures
        match parse_u64_spec(raw@) {
            Some(n) => res == Ok::<u64, AppError>(n),
            None => res matches Err(AppError::Message(m)) && m@ == invalid_id_message(raw@),
        },
{
    match parse_u64(raw) {
        Some(n) => Ok(n),
        None => {
            let mut m = chars_of("Invalid demo identifier: ");
            append_chars(&mut m, raw);
            Err(AppError::Message(string_of(m.as_slice())))
        },
    }
}

/// `str::parse::<usize>`.
pub open spec fn parse_usize_spec(s: Seq<char>) -> Option<usize> {
    match parse_u64_spec(s) {
        Some(n) => if n <= usize::MAX {
            Some(n as usize)
        } else {
            None
        },
        None => None,
    }
}

fn parse_usize(s: &[char]) -> (res: Option<usize>)
    ensures
        res == parse_usize_spec(s@),
{
    match parse_u64(s) {
        Some(n) => {
            if n <= usize::MAX as u64 {
                Some(n as usize)
            } else {
                None
            }
        },
        None => None,
    }
}

// ---------------------------------------------------------------------------
// Slugs
// ---------------------------------------------------------------------------

/// Each character of a slug: ASCII letters and digits in lower case, every
/// other character a `-`.
pub open spec fn slug_char(c: char) -> char {
    if is_ascii_alphanumeric(c) {
        ascii_lower_char(c)
    } else {
        '-'
    }
}

pub open spec fn nonempty_piece() -> spec_fn(Seq<char>) -> bool {
    |p: Seq<char>| p.len() > 0
}

/// The slug of a text: lower-case ASCII letters and digits, runs of any
/// other characters turned into one `-`, none at either end.
pub open spec fn slugify_spec(value: Seq<char>) -> Seq<char> {
    join(split_on(value.map_values(|c: char| slug_char(c)), '-').filter(nonempty_piece()), "-"@)
}

fn slug_char_exec(c: char) -> (r: char)
    ensures
        r == slug_char(c),
{
    if is_alphanumeric(c) {
        lower_char(c)
    } else {
        '-'
    }
}

/// The pieces that are not empty, in order.
fn nonempty_pieces(pieces: &Vec<Vec<char>>) -> (res: Vec<Vec<char>>)
    ensures
        char_seqs(res@) == char_seqs(pieces@).filter(nonempty_piece()),
{
    let mut kept: Vec<Vec<char>> = Vec::new();
    for i in 0..pieces.len()
        invariant
            char_seqs(kept@) == char_seqs(pieces@).take(i as int).filter(nonempty_piece()),
    {
        reveal(Seq::filter);
        assert(char_seqs(pieces@).take(i + 1).drop_last() =~= char_seqs(pieces@).take(i as int));
        if pieces[i].len() > 0 {
            let piece = crate::text::chars_from(pieces[i].as_slice(), 0);
            assert(piece@ =~= pieces@[i as int]@);
            kept.push(piece);
            assert(char_seqs(kept@) =~= char_seqs(pieces@).take(i + 1).filter(nonempty_piece()));
        }
    }
    assert(char_seqs(pieces@).take(pieces@.len() as int) =~= char_seqs(pieces@));
    kept
}

/// The slug of a title, used to name demo files.
pub fn slugify(value: &str) -> (res: String)
    ensures
        res@ == slugify_spec(value@),
{
    let chars = chars_of(value);
    let mut mapped: Vec<char> = Vec::new();
    for i in 0..chars.len()
        invariant
            mapped@ == chars@.take(i as int).map_values(|c: char| slug_char(c)),
    {
        mapped.push(slug_char_exec(chars[i]));
        assert(mapped@ =~= chars@.take(i + 1).map_values(|c: char| slug_char(c)));
    }
    assert(chars@.take(chars@.len() as int) =~= chars@);
    let pieces = split_chars(mapped.as_slice(), '-');
    let kept = nonempty_pieces(&pieces);
    let dash = chars_of("-");
    let slug = join_chars(&kept, dash.as_slice());
    string_of(slug.as_slice())
}


/// The characters a slug is made of: lower-case ASCII letters and digits.
pub open spec fn is_slug_body_char(c: char) -> bool {
    is_ascii_digit(c) || is_ascii_lower(c)
}

/// A slug: lower-case ASCII letters, digits and `-`, with no `-` at either
/// end and never two `-` side by side.
pub open spec fn is_slug(s: Seq<char>) -> bool {
    &&& forall|i: int| 0 <= i < s.len() ==> is_slug_body_char(#[trigger] s[i]) || s[i] == '-'
    &&& s.len() > 0 ==> s[0] != '-' && s.last() != '-'
    &&& forall|i: int| 0 <= i < s.len() - 1 && #[trigger] s[i] == '-' ==> s[i + 1] != '-'
}

proof fn lemma_slug_char(c: char)
    ensures
        slug_char(c) == '-' || is_slug_body_char(slug_char(c)),
        is_slug_body_char(c) || c == '-' ==> slug_char(c) == c,
{
    if is_ascii_upper(c) {
        assert(is_slug_body_char(((c as u32) + 32) as char));
    }
}

/// The pieces that a slug is joined from: none empty, each of slug
/// characters only.
proof fn lemma_slug_pieces(value: Seq<char>)
    ensures
        ({
            let pieces = split_on(value.map_values(|c: char| slug_char(c)), '-').filter(
                nonempty_piece(),
            );
            &&& forall|k: int| 0 <= k < pieces.len() ==> #[trigger] pieces[k].len() > 0
            &&& forall|k: int, j: int|
                0 <= k < pieces.len() && 0 <= j < pieces[k].len() ==> is_slug_body_char(
                    #[trigger] pieces[k][j],
                )
        }),
{
    broadcast use vstd::seq_lib::group_filter_ensures;

    let m = value.map_values(|c: char| slug_char(c));
    let body = |c: char| is_slug_body_char(c);
    assert forall|i: int| 0 <= i < m.len() && m[i] != '-' implies body(#[trigger] m[i]) by {
        lemma_slug_char(value[i]);
    }
    lemma_split_pieces(m, '-', body);
    let all = split_on(m, '-');
    let pieces = all.filter(nonempty_piece());
    assert forall|k: int| 0 <= k < pieces.len() implies #[trigger] pieces[k].len() > 0 by {
        assert(nonempty_piece()(pieces[k]));
    }
    assert forall|k: int, j: int|
        0 <= k < pieces.len() && 0 <= j < pieces[k].len() implies is_slug_body_char(
        #[trigger] pieces[k][j],
    ) by {
        assert(pieces.contains(pieces[k]));
        all.lemma_filter_contains_rev(nonempty_piece(), pieces[k]);
        let kk = choose|kk: int| 0 <= kk < all.len() && all[kk] == pieces[k];
        assert(all[kk][j] == pieces[k][j]);
        assert(body(all[kk][j]));
    }
}

/// A slug is made of lower-case ASCII letters, digits and `-`, neither
/// starts nor ends with `-`, and never holds `--`.
pub proof fn law_slugify_is_slug(value: Seq<char>)
    ensures
        is_slug(slugify_spec(value)),
{
    lemma_slug_pieces(value);
    let pieces = split_on(value.map_values(|c: char| slug_char(c)), '-').filter(nonempty_piece());
    let dash = "-"@;
    reveal_strlit("-");
    let p = |c: char| is_slug_body_char(c) || c == '-';
    lemma_join_chars(pieces, dash, p);
    let s = slugify_spec(value);
    assert forall|i: int| 0 <= i < s.len() implies is_slug_body_char(#[trigger] s[i]) || s[i]
        == '-' by {
        assert(p(s[i]));
    }
    if pieces.len() >= 1 {
        lemma_join_ends(pieces, dash);
        assert(pieces[0].len() > 0);
        assert(pieces.last().len() > 0);
        assert(s[0] == pieces[0][0]);
        assert(is_slug_body_char(pieces[0][0]));
        let last = pieces.last();
        assert(s[s.len() - last.len() + (last.len() - 1)] == last[last.len() - 1]);
        assert(is_slug_body_char(pieces[pieces.len() - 1][last.len() - 1]));
    }
    assert(dash =~= seq!['-']);
    assert forall|k: int, j: int| 0 <= k < pieces.len() && 0 <= j < pieces[k].len() implies #[trigger] pieces[k][j]
        != '-' by {
        assert(is_slug_body_char(pieces[k][j]));
    }
    lemma_join_no_double_separator(pieces, '-');
}

/// Making a slug of a slug changes nothing.
pub proof fn law_slugify_idempotent(value: Seq<char>)
    ensures
        slugify_spec(slugify_spec(value)) == slugify_spec(value),
{
    lemma_slug_pieces(value);
    let pieces = split_on(value.map_values(|c: char| slug_char(c)), '-').filter(nonempty_piece());
    let s = slugify_spec(value);
    reveal_strlit("-");
    assert("-"@ =~= seq!['-']);
    law_slugify_is_slug(value);
    let m = s.map_values(|c: char| slug_char(c));
    assert forall|i: int| 0 <= i < s.len() implies #[trigger] m[i] == s[i] by {
        lemma_slug_char(s[i]);
    }
    assert(m =~= s);
    if pieces.len() == 0 {
        assert(s =~= Seq::<char>::empty());
        reveal(Seq::filter);
        let none = Seq::<Seq<char>>::empty();
        assert(split_on(s, '-') =~= none.push(Seq::<char>::empty()));
        assert(!nonempty_piece()(Seq::<char>::empty()));
        none.lemma_filter_push(Seq::<char>::empty(), nonempty_piece());
        assert(none.filter(nonempty_piece()) =~= none);
    } else {
        assert forall|k: int, j: int| 0 <= k < pieces.len() && 0 <= j < pieces[k].len() implies #[trigger] pieces[k][j]
            != '-' by {
            assert(is_slug_body_char(pieces[k][j]));
        }
        lemma_split_join(pieces, '-');
        assert forall|k: int| 0 <= k < pieces.len() implies #[trigger] nonempty_piece()(pieces[k]) by {
            assert(pieces[k].len() > 0);
        }
        lemma_filter_all(pieces, nonempty_piece());
    }
}


// ---------------------------------------------------------------------------
// Looking items up
// ---------------------------------------------------------------------------

/// The answer for an item of `rows` named by the text `raw`, at `path`.
pub open spec fn item_answer(res: Result<ResponseData, AppError>, raw: Seq<char>, rows: Seq<Fields>, path: Seq<char>) -> bool {
    match parse_u64_spec(raw) {
        None => is_invalid_id(res, raw),
        Some(n) => match first_row(rows, n) {
            Some(k) => answers_object(res, path, rows[k]),
            None => is_not_found(res, path),
        },
    }
}

/// The answer for an item of `rows` named by `raw` and changed by `body`.
pub open spec fn patched_item_answer(
    res: Result<ResponseData, AppError>,
    raw: Seq<char>,
    rows: Seq<Fields>,
    path: Seq<char>,
    body: Option<JsonValue>,
) -> bool {
    match parse_u64_spec(raw) {
        None => is_invalid_id(res, raw),
        Some(n) => match first_row(rows, n) {
            Some(k) => answers_object(res, path, patched_fields(rows[k], body)),
            None => is_not_found(res, path),
        },
    }
}

fn not_found_at(path: &[char]) -> (res: Result<ResponseData, AppError>)
    ensures
        is_not_found(res, path@),
{
    Err(not_found(path, "Resource not found."))
}

/// The item of a list with the identifier `id`, answered at `path`.
fn item_detail(id: &str, items: Vec<JsonValue>, Ghost(rows): Ghost<Seq<Fields>>, path: &[char]) -> (res:
    Result<ResponseData, AppError>)
    requires
        items_fit(items@, rows),
        rows_have_ids(rows),
        rows_scalar(rows),
    ensures
        item_answer(res, id@, rows, path@),
{
    let n = parse_id(id)?;
    proof {
        lemma_first_with_id(items@, rows, n);
        lemma_first_with_id_bounds(items@, n);
    }
    let ghost all = items@;
    match find_by_id(items, n) {
        Some(item) => {
            let ghost k = first_with_id(all, n)->0;
            proof {
                assert(scalar_row(rows[k]));
                lemma_scalar_object(item, rows[k]);
            }
            ok_json(path, item)
        },
        None => not_found_at(path),
    }
}


/// `documents/{id}/`.
pub open spec fn document_path(id: u64) -> Seq<char> {
    "documents/"@ + decimal(id as nat) + "/"@
}

/// `documents/{id}/{asset}/`.
pub open spec fn asset_path(id: u64, asset: Seq<char>) -> Seq<char> {
    document_path(id) + asset + "/"@
}

fn document_path_chars(id: u64) -> (res: Vec<char>)
    ensures
        res@ == document_path(id),
{
    let mut p = chars_of("documents/");
    let digits = decimal_chars(id);
    append_chars(&mut p, digits.as_slice());
    let slash = chars_of("/");
    append_chars(&mut p, slash.as_slice());
    p
}

fn asset_path_chars(id: u64, asset: &str) -> (res: Vec<char>)
    ensures
        res@ == asset_path(id, asset@),
{
    let mut p = document_path_chars(id);
    let a = chars_of(asset);
    append_chars(&mut p, a.as_slice());
    let slash = chars_of("/");
    append_chars(&mut p, slash.as_slice());
    p
}

/// The answer for a demo document named by the text `raw`.
pub open spec fn document_answer(res: Result<ResponseData, AppError>, raw: Seq<char>) -> bool {
    match parse_u64_spec(raw) {
        None => is_invalid_id(res, raw),
        Some(n) => item_answer(res, raw, document_rows(), document_path(n)),
    }
}

/// A demo document by its identifier.
pub fn document_detail(id: &str) -> (res: Result<ResponseData, AppError>)
    ensures
        document_answer(res, id@),
{
    let n = parse_id(id)?;
    let path = document_path_chars(n);
    proof {
        lemma_demo_rows();
    }
    item_detail(id, demo_documents(), Ghost(document_rows()), path.as_slice())
}


/// The file extension of a document asset: a PNG thumbnail, else a PDF.
pub open spec fn asset_extension(asset: Seq<char>) -> Seq<char> {
    if asset == "thumb"@ {
        ".png"@
    } else {
        ".pdf"@
    }
}

/// The bytes the demo serves for a document asset.
pub open spec fn asset_bytes(asset: Seq<char>) -> Seq<u8> {
    if asset == "thumb"@ {
        seq![80u8, 78, 71, 32, 68, 69, 77, 79]
    } else {
        seq![37u8, 80, 68, 70, 45, 49, 46, 52, 10, 37, 32, 68, 69, 77, 79, 10]
    }
}

/// The title a demo file is named after; `demo-document` without one.
pub open spec fn title_or_default(title: Option<Seq<char>>) -> Seq<char> {
    match title {
        Some(t) => t,
        None => "demo-document"@,
    }
}

/// The `content-disposition` of a demo file: an attachment named after the
/// slug of the title.
pub open spec fn asset_disposition(title: Seq<char>, asset: Seq<char>) -> Seq<char> {
    "attachment; filename=\""@ + slugify_spec(title) + asset_extension(asset) + "\""@
}

/// A file answer: status 200, the MIME type, the disposition and the bytes.
pub open spec fn is_file_answer(
    res: Result<ResponseData, AppError>,
    path: Seq<char>,
    mime: Seq<char>,
    disposition: Option<Seq<char>>,
    body: Seq<u8>,
) -> bool {
    res matches Ok(r) && r.status == 200 && r.url@ == demo_url_spec(path) && pairs_view(r.headers@)
        == binary_headers(mime, disposition) && r.body@ == body
}

fn disposition_chars(title: &[char], asset: &str) -> (res: String)
    ensures
        res@ == asset_disposition(title@, asset@),
{
    let mut d = chars_of("attachment; filename=\"");
    let t = string_of(title);
    let slug = slugify(t.as_str());
    let slug_chars = chars_of(slug.as_str());
    append_chars(&mut d, slug_chars.as_slice());
    let ext = if str_is(asset, "thumb") {
        chars_of(".png")
    } else {
        chars_of(".pdf")
    };
    append_chars(&mut d, ext.as_slice());
    let quote = chars_of("\"");
    append_chars(&mut d, quote.as_slice());
    string_of(d.as_slice())
}

/// The answer for a file of a demo document named by the text `raw`.
pub open spec fn document_file_answer(
    res: Result<ResponseData, AppError>,
    raw: Seq<char>,
    asset: Seq<char>,
    mime: Seq<char>,
) -> bool {
    match parse_u64_spec(raw) {
        None => is_invalid_id(res, raw),
        Some(n) => match first_row(document_rows(), n) {
            Some(k) => is_file_answer(
                res,
                asset_path(n, asset),
                mime,
                Some(asset_disposition(title_or_default(row_text(document_rows()[k], "title"@)), asset)),
                asset_bytes(asset),
            ),
            None => is_not_found(res, asset_path(n, asset)),
        },
    }
}

/// A file of a demo document: its download, preview or thumbnail.
pub fn document_binary(id: &str, asset: &str, mime: &str) -> (res: Result<ResponseData, AppError>)
    ensures
        document_file_answer(res, id@, asset@, mime@),
{
    let n = parse_id(id)?;
    let path = asset_path_chars(n, asset);
    let items = demo_documents();
    proof {
        lemma_demo_rows();
        lemma_first_with_id(items@, document_rows(), n);
        lemma_first_with_id_bounds(items@, n);
    }
    let ghost all = items@;
    match find_by_id(items, n) {
        Some(document) => {
            let ghost k = first_with_id(all, n)->0;
            proof {
                lemma_item_text(document, document_rows()[k], "title"@);
            }
            let title = match text_of_field(&document, "title") {
                Some(t) => t,
                None => chars_of("demo-document"),
            };
            let disposition = disposition_chars(title.as_slice(), asset);
            let bytes = if str_is(asset, "thumb") {
                vec![80u8, 78, 71, 32, 68, 69, 77, 79]
            } else {
                vec![37u8, 80, 68, 70, 45, 49, 46, 52, 10, 37, 32, 68, 69, 77, 79, 10]
            };
            let p = string_of(path.as_slice());
            ok_binary(p.as_str(), bytes, mime, Some(disposition))
        },
        None => not_found_at(path.as_slice()),
    }
}


// ---------------------------------------------------------------------------
// Changing items
// ---------------------------------------------------------------------------

/// The position of the first field with the given key.
pub open spec fn field_index(f: Fields, key: Seq<char>) -> Option<int>
    decreases f.len(),
{
    if f.len() == 0 {
        None
    } else if f[0].0 == key {
        Some(0)
    } else {
        match field_index(f.drop_first(), key) {
            Some(i) => Some(i + 1),
            None => None,
        }
    }
}

/// `object[key] = value`: the field with the key takes the new value, or a
/// new field is added at the end.
pub open spec fn set_field(f: Fields, key: Seq<char>, fs: FieldSpec) -> Fields {
    match field_index(f, key) {
        Some(i) => f.update(i, (key, fs)),
        None => f.push((key, fs)),
    }
}

/// The fields after setting each entry of a patch, in order.
pub open spec fn apply_patch(f: Fields, patch: Seq<(String, JsonValue)>) -> Fields
    decreases patch.len(),
{
    if patch.len() == 0 {
        f
    } else {
        set_field(
            apply_patch(f, patch.drop_last()),
            patch.last().0@,
            FieldSpec::Exactly(patch.last().1),
        )
    }
}

/// The fields after a JSON body: an object body is applied as a patch, any
/// other body changes nothing.
pub open spec fn patched_fields(f: Fields, body: Option<JsonValue>) -> Fields {
    match body {
        Some(JsonValue::Object(patch)) => apply_patch(f, patch@),
        _ => f,
    }
}

proof fn lemma_field_index(f: Fields, key: Seq<char>, i: int)
    requires
        0 <= i <= f.len(),
        forall|j: int| 0 <= j < i ==> (#[trigger] f[j]).0 != key,
    ensures
        i < f.len() && f[i].0 == key ==> field_index(f, key) == Some(i),
        i == f.len() ==> field_index(f, key) is None,
    decreases i,
{
    if i > 0 {
        let g = f.drop_first();
        assert forall|j: int| 0 <= j < i - 1 implies (#[trigger] g[j]).0 != key by {
            assert(g[j] == f[j + 1]);
            assert(f[j + 1].0 != key);
        }
        lemma_field_index(g, key, i - 1);
        assert(f[0].0 != key);
        if i < f.len() {
            assert(g[i - 1] == f[i]);
        }
    }
}

proof fn lemma_field_index_first(f: Fields, key: Seq<char>)
    ensures
        match field_index(f, key) {
            Some(i) => 0 <= i < f.len() && f[i].0 == key && forall|j: int| 0 <= j < i ==> (#[trigger] f[j]).0 != key,
            None => forall|j: int| 0 <= j < f.len() ==> (#[trigger] f[j]).0 != key,
        },
    decreases f.len(),
{
    if f.len() > 0 {
        lemma_field_index_first(f.drop_first(), key);
        assert forall|j: int| 0 < j < f.len() implies #[trigger] f[j] == f.drop_first()[j - 1] by {}
    }
}

proof fn lemma_field_get_at(f: Fields, key: Seq<char>, i: int)
    requires
        0 <= i < f.len(),
        f[i].0 == key,
        forall|j: int| 0 <= j < i ==> (#[trigger] f[j]).0 != key,
    ensures
        field_get(f, key) == Some(f[i].1),
    decreases i,
{
    if i > 0 {
        let g = f.drop_first();
        assert(f[0].0 != key);
        assert forall|j: int| 0 <= j < i - 1 implies (#[trigger] g[j]).0 != key by {
            assert(g[j] == f[j + 1]);
        }
        lemma_field_get_at(g, key, i - 1);
    }
}

proof fn lemma_field_get_none(f: Fields, key: Seq<char>)
    requires
        forall|j: int| 0 <= j < f.len() ==> (#[trigger] f[j]).0 != key,
    ensures
        field_get(f, key) is None,
    decreases f.len(),
{
    if f.len() > 0 {
        let g = f.drop_first();
        assert forall|j: int| 0 <= j < g.len() implies (#[trigger] g[j]).0 != key by {
            assert(g[j] == f[j + 1]);
        }
        lemma_field_get_none(g, key);
    }
}

/// Law: after `object[key] = value`, reading `key` gives the value back,
/// and every other key reads as before.
pub proof fn law_set_field_reads_back(f: Fields, key: Seq<char>, fs: FieldSpec, other: Seq<char>)
    requires
        other != key,
    ensures
        field_get(set_field(f, key, fs), key) == Some(fs),
        field_get(set_field(f, key, fs), other) == field_get(f, other),
{
    lemma_field_index_first(f, key);
    lemma_field_index_first(f, other);
    let g = set_field(f, key, fs);
    match field_index(f, key) {
        Some(i) => {
            assert forall|j: int| 0 <= j < i implies (#[trigger] g[j]).0 != key by {
                assert(g[j] == f[j]);
            }
            lemma_field_get_at(g, key, i);
        },
        None => {
            assert forall|j: int| 0 <= j < f.len() implies (#[trigger] g[j]).0 != key by {
                assert(g[j] == f[j]);
            }
            lemma_field_get_at(g, key, f.len() as int);
        },
    }
    match field_index(f, other) {
        Some(k) => {
            assert forall|j: int| 0 <= j < k implies (#[trigger] g[j]).0 != other by {
                if j < f.len() {
                    assert(g[j].0 == f[j].0 || g[j].0 == key);
                }
            }
            assert(g[k].0 == other);
            assert(g[k].1 == f[k].1);
            lemma_field_get_at(g, other, k);
            lemma_field_get_at(f, other, k);
        },
        None => {
            assert forall|j: int| 0 <= j < g.len() implies (#[trigger] g[j]).0 != other by {
                if j < f.len() {
                    assert(g[j].0 == f[j].0 || g[j].0 == key);
                }
            }
            lemma_field_get_none(g, other);
            lemma_field_get_none(f, other);
        },
    }
}

/// `object[key] = value` on the entries of an object.
fn set_entry(entries: &mut Vec<(String, JsonValue)>, key: String, value: JsonValue, Ghost(f): Ghost<Fields>)
    requires
        entries_fit(old(entries)@, f),
    ensures
        entries_fit(final(entries)@, set_field(f, key@, FieldSpec::Exactly(value))),
{
    let k = chars_of(key.as_str());
    let ghost fs = FieldSpec::Exactly(value);
    let mut i: usize = 0;
    while i < entries.len()
        invariant
            i <= entries@.len(),
            entries_fit(entries@, f),
            k@ == key@,
            fs == FieldSpec::Exactly(value),
            forall|j: int| 0 <= j < i ==> (#[trigger] f[j]).0 != key@,
        decreases entries@.len() - i,
    {
        let name = chars_of(entries[i].0.as_str());
        if chars_equal(name.as_slice(), k.as_slice()) {
            proof {
                lemma_field_index(f, key@, i as int);
            }
            let ghost before = entries@;
            let ghost entry = (key, value);
            entries.set(i, (key, value));
            assert(entries@[i as int] == entry);
            assert forall|j: int| 0 <= j < f.len() implies (#[trigger] entries@[j]).0@
                == f.update(i as int, (k@, fs))[j].0 && value_fits(entries@[j].1, f.update(i as int, (k@, fs))[j].1) by {
                if j != i {
                    assert(entries@[j] == before[j]);
                }
            }
            return;
        }
        assert(entries@[i as int].0@ == f[i as int].0);
        i = i + 1;
    }
    proof {
        lemma_field_index(f, key@, i as int);
    }
    let ghost before = entries@;
    entries.push((key, value));
    assert forall|j: int| 0 <= j < f.len() + 1 implies (#[trigger] entries@[j]).0@ == f.push((k@, fs))[j].0
        && value_fits(entries@[j].1, f.push((k@, fs))[j].1) by {
        if j < f.len() {
            assert(entries@[j] == before[j]);
        }
    }
}

/// Applies an object body to the entries of an object.
fn apply_body(entries: &mut Vec<(String, JsonValue)>, body: Option<JsonValue>, Ghost(f): Ghost<Fields>)
    requires
        entries_fit(old(entries)@, f),
    ensures
        entries_fit(final(entries)@, patched_fields(f, body)),
{
    match body {
        Some(JsonValue::Object(patch)) => {
            let ghost all = patch@;
            let mut rest = patch;
            let mut n: usize = 0;
            assert(all.take(0) =~= Seq::<(String, JsonValue)>::empty());
            assert(all.skip(0) =~= all);
            assert(all.len() == rest.len());
            while rest.len() > 0
                invariant
                    n + rest@.len() == all.len(),
                    all.len() <= usize::MAX,
                    rest@ == all.skip(n as int),
                    entries_fit(entries@, apply_patch(f, all.take(n as int))),
                decreases rest@.len(),
            {
                let (key, value) = rest.remove(0);
                assert((key, value) == all[n as int]);
                assert(all.take(n + 1).drop_last() =~= all.take(n as int));
                set_entry(entries, key, value, Ghost(apply_patch(f, all.take(n as int))));
                assert(rest@ =~= all.skip(n + 1));
                n = n + 1;
            }
            assert(all.take(n as int) =~= all);
        },
        _ => {},
    }
}


/// The item of a list with the identifier `id`, changed by an object body,
/// answered at `path`.
fn patch_named_item(
    id: &str,
    items: Vec<JsonValue>,
    Ghost(rows): Ghost<Seq<Fields>>,
    path: &[char],
    body: Option<JsonValue>,
) -> (res: Result<ResponseData, AppError>)
    requires
        items_fit(items@, rows),
        rows_have_ids(rows),
    ensures
        patched_item_answer(res, id@, rows, path@, body),
{
    let n = parse_id(id)?;
    proof {
        lemma_first_with_id(items@, rows, n);
        lemma_first_with_id_bounds(items@, n);
    }
    let ghost all = items@;
    match find_by_id(items, n) {
        Some(JsonValue::Object(entries)) => {
            let ghost k = first_with_id(all, n)->0;
            let ghost f = rows[k];
            let mut entries = entries;
            assert(entries_fit(entries@, f)) by {
                assert forall|i: int| 0 <= i < f.len() implies (#[trigger] entries@[i]).0@ == f[i].0
                    && crate::services::value_fits(entries@[i].1, f[i].1) by {
                    assert(crate::services::scalar_fits(entries@[i].1, f[i].1));
                }
            }
            apply_body(&mut entries, body, Ghost(f));
            proof {
                lemma_object_fits(entries, patched_fields(f, body));
            }
            ok_json(path, JsonValue::Object(entries))
        },
        _ => not_found_at(path),
    }
}

/// The answer for a demo document named by `raw` and changed by `body`.
pub open spec fn patched_document_answer(res: Result<ResponseData, AppError>, raw: Seq<char>, body: Option<JsonValue>) -> bool {
    match parse_u64_spec(raw) {
        None => is_invalid_id(res, raw),
        Some(n) => patched_item_answer(res, raw, document_rows(), document_path(n), body),
    }
}

/// A demo document changed by an object body.
pub fn patch_document(id: &str, json_body: Option<JsonValue>) -> (res: Result<ResponseData, AppError>)
    ensures
        patched_document_answer(res, id@, json_body),
{
    let n = parse_id(id)?;
    let path = document_path_chars(n);
    proof {
        lemma_demo_rows();
    }
    patch_named_item(id, demo_documents(), Ghost(document_rows()), path.as_slice(), json_body)
}


// ---------------------------------------------------------------------------
// Creating items
// ---------------------------------------------------------------------------

/// The text of a field of a request body, or `default`.
pub open spec fn body_text(body: Option<JsonValue>, key: Seq<char>, default: Seq<char>) -> Seq<char> {
    match body {
        Some(b) => match item_text(b, key) {
            Some(t) => t,
            None => default,
        },
        None => default,
    }
}

/// The flag of a field of a request body, or `default`.
pub open spec fn body_flag(body: Option<JsonValue>, key: Seq<char>, default: bool) -> bool {
    match body {
        Some(b) => match json_bool(json_get(b, key)) {
            Some(x) => x,
            None => default,
        },
        None => default,
    }
}

/// The integer of a field of a request body, or `default`.
pub open spec fn body_int(body: Option<JsonValue>, key: Seq<char>, default: i64) -> i64 {
    match body {
        Some(b) => match json_i64(json_get(b, key)) {
            Some(x) => x,
            None => default,
        },
        None => default,
    }
}

/// The tag the demo answers a creation with.
pub open spec fn created_tag_fields(body: Option<JsonValue>) -> Fields {
    seq![
        ("id"@, FieldSpec::Number(999)),
        ("name"@, FieldSpec::Text(body_text(body, "name"@, "demo-tag"@))),
        ("color"@, FieldSpec::Text(body_text(body, "color"@, "#7dd3fc"@))),
        ("is_inbox_tag"@, FieldSpec::Flag(body_flag(body, "is_inbox_tag"@, false))),
        ("demo"@, FieldSpec::Flag(true)),
    ]
}

/// The correspondent or document type the demo answers a creation with.
pub open spec fn created_matcher_fields(body: Option<JsonValue>) -> Fields {
    seq![
        ("id"@, FieldSpec::Number(999)),
        ("name"@, FieldSpec::Text(body_text(body, "name"@, "demo-item"@))),
        ("match"@, FieldSpec::Text(body_text(body, "match"@, ""@))),
        ("matching_algorithm"@, FieldSpec::Int(body_int(body, "matching_algorithm"@, 0))),
        ("demo"@, FieldSpec::Flag(true)),
    ]
}

fn body_text_value(body: &Option<JsonValue>, key: &str, default: &str) -> (res: JsonValue)
    ensures
        is_json_string(res, body_text(*body, key@, default@)),
{
    let text = match body {
        Some(b) => match text_of_field(b, key) {
            Some(t) => t,
            None => chars_of(default),
        },
        None => chars_of(default),
    };
    JsonValue::String(string_of(text.as_slice()))
}

fn body_flag_value(body: &Option<JsonValue>, key: &str, default: bool) -> (res: bool)
    ensures
        res == body_flag(*body, key@, default),
{
    match body {
        Some(b) => match b.get(key) {
            Some(x) => match x.as_bool() {
                Some(v) => v,
                None => default,
            },
            None => default,
        },
        None => default,
    }
}

fn body_int_value(body: &Option<JsonValue>, key: &str, default: i64) -> (res: i64)
    ensures
        res == body_int(*body, key@, default),
{
    match body {
        Some(b) => match b.get(key) {
            Some(x) => match x.as_i64() {
                Some(v) => v,
                None => default,
            },
            None => default,
        },
        None => default,
    }
}

/// The demo answer to creating a tag: the tag as asked for, with the
/// identifier 999.
pub fn create_tag_response(json_body: Option<JsonValue>) -> (res: Result<ResponseData, AppError>)
    ensures
        answers_object(res, "tags/"@, created_tag_fields(json_body)),
{
    let ghost mut f: Fields = Seq::empty();
    let mut e: Vec<(String, JsonValue)> = Vec::new();
    push_entry(&mut e, "id", json_number(999), Ghost(f), Ghost(FieldSpec::Number(999)));
    proof { f = f.push(("id"@, FieldSpec::Number(999))); }
    let name = body_text_value(&json_body, "name", "demo-tag");
    let ghost name_spec = FieldSpec::Text(body_text(json_body, "name"@, "demo-tag"@));
    push_entry(&mut e, "name", name, Ghost(f), Ghost(name_spec));
    proof { f = f.push(("name"@, name_spec)); }
    let color = body_text_value(&json_body, "color", "#7dd3fc");
    let ghost color_spec = FieldSpec::Text(body_text(json_body, "color"@, "#7dd3fc"@));
    push_entry(&mut e, "color", color, Ghost(f), Ghost(color_spec));
    proof { f = f.push(("color"@, color_spec)); }
    let inbox = body_flag_value(&json_body, "is_inbox_tag", false);
    push_entry(&mut e, "is_inbox_tag", JsonValue::Bool(inbox), Ghost(f), Ghost(FieldSpec::Flag(inbox)));
    proof { f = f.push(("is_inbox_tag"@, FieldSpec::Flag(inbox))); }
    push_entry(&mut e, "demo", JsonValue::Bool(true), Ghost(f), Ghost(FieldSpec::Flag(true)));
    proof { f = f.push(("demo"@, FieldSpec::Flag(true))); }
    assert(f =~= created_tag_fields(json_body));
    proof {
        lemma_object_fits(e, f);
    }
    let path = chars_of("tags/");
    ok_json(path.as_slice(), JsonValue::Object(e))
}

/// The demo answer to creating a correspondent or document type at `path`:
/// the item as asked for, with the identifier 999.
pub fn create_named_matcher(path: &str, json_body: Option<JsonValue>) -> (res: Result<ResponseData, AppError>)
    ensures
        answers_object(res, path@, created_matcher_fields(json_body)),
{
    let ghost mut f: Fields = Seq::empty();
    let mut e: Vec<(String, JsonValue)> = Vec::new();
    push_entry(&mut e, "id", json_number(999), Ghost(f), Ghost(FieldSpec::Number(999)));
    proof { f = f.push(("id"@, FieldSpec::Number(999))); }
    let name = body_text_value(&json_body, "name", "demo-item");
    let ghost name_spec = FieldSpec::Text(body_text(json_body, "name"@, "demo-item"@));
    push_entry(&mut e, "name", name, Ghost(f), Ghost(name_spec));
    proof { f = f.push(("name"@, name_spec)); }
    let pattern = body_text_value(&json_body, "match", "");
    let ghost match_spec = FieldSpec::Text(body_text(json_body, "match"@, ""@));
    push_entry(&mut e, "match", pattern, Ghost(f), Ghost(match_spec));
    proof { f = f.push(("match"@, match_spec)); }
    let algorithm = body_int_value(&json_body, "matching_algorithm", 0);
    push_entry(&mut e, "matching_algorithm", json_int(algorithm), Ghost(f), Ghost(FieldSpec::Int(algorithm)));
    proof { f = f.push(("matching_algorithm"@, FieldSpec::Int(algorithm))); }
    push_entry(&mut e, "demo", JsonValue::Bool(true), Ghost(f), Ghost(FieldSpec::Flag(true)));
    proof { f = f.push(("demo"@, FieldSpec::Flag(true))); }
    assert(f =~= created_matcher_fields(json_body));
    proof {
        lemma_object_fits(e, f);
    }
    let p = chars_of(path);
    ok_json(p.as_slice(), JsonValue::Object(e))
}


// ---------------------------------------------------------------------------
// Searching and listing
// ---------------------------------------------------------------------------

/// A query parameter in lower case; empty when absent.
pub open spec fn search_term(query: Seq<(Seq<char>, Seq<char>)>, key: Seq<char>) -> Seq<char> {
    match pairs_lookup(query, key) {
        Some(v) => ascii_lowercase(v),
        None => Seq::empty(),
    }
}

fn search_chars(query: &[(String, String)], key: &str) -> (res: Vec<char>)
    ensures
        res@ == search_term(pairs_view(query@), key@),
{
    match query_chars(query, key) {
        Some(v) => to_ascii_lowercase(v.as_slice()),
        None => {
            let empty: Vec<char> = Vec::new();
            assert(empty@ =~= Seq::<char>::empty());
            empty
        },
    }
}

/// An empty array.
pub open spec fn no_items() -> FieldSpec {
    FieldSpec::Elements(Seq::empty())
}

/// The rows that a search finds in each list.
pub open spec fn found_documents(s: Seq<char>) -> Seq<Fields> {
    document_rows().filter(document_row_filter(s))
}

pub open spec fn found_tags(s: Seq<char>) -> Seq<Fields> {
    tag_rows().filter(name_row_filter(s))
}

pub open spec fn found_correspondents(s: Seq<char>) -> Seq<Fields> {
    correspondent_rows().filter(name_row_filter(s))
}

pub open spec fn found_document_types(s: Seq<char>) -> Seq<Fields> {
    document_type_rows().filter(name_row_filter(s))
}

/// The answer to a global search for the lower-case term `s`: the
/// matching documents, tags, correspondents and document types, their
/// total, and empty lists of everything else.
pub open spec fn search_fields(s: Seq<char>) -> Fields {
    seq![
        ("correspondents"@, FieldSpec::Objects(found_correspondents(s))),
        ("custom_fields"@, no_items()),
        ("document_types"@, FieldSpec::Objects(found_document_types(s))),
        ("documents"@, FieldSpec::Objects(found_documents(s))),
        ("groups"@, no_items()),
        ("mail_accounts"@, no_items()),
        ("mail_rules"@, no_items()),
        ("saved_views"@, no_items()),
        ("storage_paths"@, no_items()),
        ("tags"@, FieldSpec::Objects(found_tags(s))),
        (
            "total"@,
            FieldSpec::Number(
                (found_documents(s).len() + found_tags(s).len() + found_correspondents(s).len()
                    + found_document_types(s).len()) as u64,
            ),
        ),
        ("users"@, no_items()),
        ("workflows"@, no_items()),
    ]
}

fn empty_list() -> (res: JsonValue)
    ensures
        value_fits(res, no_items()),
{
    let items: Vec<JsonValue> = Vec::new();
    assert(items@ =~= Seq::<JsonValue>::empty());
    JsonValue::Array(items)
}

/// The answer to a global search with the given query parameters.
pub open spec fn search_answer(res: Result<ResponseData, AppError>, query: Seq<(Seq<char>, Seq<char>)>) -> bool {
    answers_object(res, "search/"@, search_fields(search_term(query, "query"@)))
}

/// The demo answer to a global search: `query` is matched, in any case,
/// against documents and the names and match patterns of tags,
/// correspondents and document types.
pub fn search_documents(query: &[(String, String)]) -> (res: Result<ResponseData, AppError>)
    ensures
        search_answer(res, pairs_view(query@)),
{
    let search = search_chars(query, "query");
    let ghost s = search@;
    let all_documents = demo_documents();
    let all_tags = demo_tags();
    let all_correspondents = demo_correspondents();
    let all_types = demo_document_types();
    proof {
        lemma_demo_rows();
        lemma_document_filter(all_documents@, document_rows(), s);
        lemma_name_filter(all_tags@, tag_rows(), s);
        lemma_name_filter(all_correspondents@, correspondent_rows(), s);
        lemma_name_filter(all_types@, document_type_rows(), s);
        document_rows().lemma_filter_len(document_row_filter(s));
        tag_rows().lemma_filter_len(name_row_filter(s));
        correspondent_rows().lemma_filter_len(name_row_filter(s));
        document_type_rows().lemma_filter_len(name_row_filter(s));
    }
    let documents = filter_documents(all_documents, search.as_slice());
    let tags = matching_named_items(all_tags, search.as_slice());
    let correspondents = matching_named_items(all_correspondents, search.as_slice());
    let document_types = matching_named_items(all_types, search.as_slice());
    let total = documents.len() + tags.len() + correspondents.len() + document_types.len();
    let ghost mut f: Fields = Seq::empty();
    let mut e: Vec<(String, JsonValue)> = Vec::new();
    let ghost c = FieldSpec::Objects(found_correspondents(s));
    push_entry(&mut e, "correspondents", JsonValue::Array(correspondents), Ghost(f), Ghost(c));
    proof { f = f.push(("correspondents"@, c)); }
    push_entry(&mut e, "custom_fields", empty_list(), Ghost(f), Ghost(no_items()));
    proof { f = f.push(("custom_fields"@, no_items())); }
    let ghost t = FieldSpec::Objects(found_document_types(s));
    push_entry(&mut e, "document_types", JsonValue::Array(document_types), Ghost(f), Ghost(t));
    proof { f = f.push(("document_types"@, t)); }
    let ghost d = FieldSpec::Objects(found_documents(s));
    push_entry(&mut e, "documents", JsonValue::Array(documents), Ghost(f), Ghost(d));
    proof { f = f.push(("documents"@, d)); }
    push_entry(&mut e, "groups", empty_list(), Ghost(f), Ghost(no_items()));
    proof { f = f.push(("groups"@, no_items())); }
    push_entry(&mut e, "mail_accounts", empty_list(), Ghost(f), Ghost(no_items()));
    proof { f = f.push(("mail_accounts"@, no_items())); }
    push_entry(&mut e, "mail_rules", empty_list(), Ghost(f), Ghost(no_items()));
    proof { f = f.push(("mail_rules"@, no_items())); }
    push_entry(&mut e, "saved_views", empty_list(), Ghost(f), Ghost(no_items()));
    proof { f = f.push(("saved_views"@, no_items())); }
    push_entry(&mut e, "storage_paths", empty_list(), Ghost(f), Ghost(no_items()));
    proof { f = f.push(("storage_paths"@, no_items())); }
    let ghost g = FieldSpec::Objects(found_tags(s));
    push_entry(&mut e, "tags", JsonValue::Array(tags), Ghost(f), Ghost(g));
    proof { f = f.push(("tags"@, g)); }
    let total = total as u64;
    push_entry(&mut e, "total", json_number(total), Ghost(f), Ghost(FieldSpec::Number(total)));
    proof { f = f.push(("total"@, FieldSpec::Number(total))); }
    push_entry(&mut e, "users", empty_list(), Ghost(f), Ghost(no_items()));
    proof { f = f.push(("users"@, no_items())); }
    push_entry(&mut e, "workflows", empty_list(), Ghost(f), Ghost(no_items()));
    proof { f = f.push(("workflows"@, no_items())); }
    assert(f =~= search_fields(s));
    proof {
        lemma_object_fits(e, f);
    }
    let path = chars_of("search/");
    ok_json(path.as_slice(), JsonValue::Object(e))
}


/// The `limit` query parameter; 10 when absent or no number.
pub open spec fn suggestion_limit(query: Seq<(Seq<char>, Seq<char>)>) -> usize {
    match pairs_lookup(query, "limit"@) {
        Some(v) => match parse_usize_spec(v) {
            Some(n) => n,
            None => 10,
        },
        None => 10,
    }
}

/// The first `n` elements, or all of them.
pub open spec fn at_most<A>(s: Seq<A>, n: usize) -> Seq<A> {
    if n < s.len() {
        s.take(n as int)
    } else {
        s
    }
}

/// The answer to an autocompletion with the given query parameters.
pub open spec fn suggestion_answer(res: Result<ResponseData, AppError>, query: Seq<(Seq<char>, Seq<char>)>) -> bool {
    answers_value(
        res,
        "search/autocomplete/"@,
        FieldSpec::Texts(
            at_most(title_suggestions(document_rows(), search_term(query, "term"@)), suggestion_limit(query)),
        ),
    )
}

/// The demo answer to an autocompletion: the titles of the documents that
/// hold `term`, in any case, at most `limit` of them.
pub fn autocomplete(query: &[(String, String)]) -> (res: Result<ResponseData, AppError>)
    ensures
        suggestion_answer(res, pairs_view(query@)),
{
    let term = search_chars(query, "term");
    let limit = match query_chars(query, "limit") {
        Some(v) => match parse_usize(v.as_slice()) {
            Some(n) => n,
            None => 10,
        },
        None => 10,
    };
    let documents = demo_documents();
    proof {
        lemma_item_titles(documents@, document_rows(), term@);
    }
    let mut suggestions = matching_titles(&documents, term.as_slice());
    let ghost all = suggestions@;
    let ghost titles = title_suggestions(document_rows(), term@);
    suggestions.truncate(limit);
    let ghost kept = at_most(titles, limit);
    assert forall|i: int| 0 <= i < suggestions@.len() implies is_json_string(#[trigger] suggestions@[i], kept[i]) by {
        assert(suggestions@[i] == all[i]);
    }
    let body = JsonValue::Array(suggestions);
    assert(value_fits(body, FieldSpec::Texts(kept)));
    let path = chars_of("search/autocomplete/");
    ok_json(path.as_slice(), body)
}


/// A page number or size from the query: the number given, or `default`;
/// never less than 1.
pub open spec fn page_param(query: Seq<(Seq<char>, Seq<char>)>, key: Seq<char>, default: usize) -> usize {
    let v = match pairs_lookup(query, key) {
        Some(text) => match parse_usize_spec(text) {
            Some(n) => n,
            None => default,
        },
        None => default,
    };
    if v < 1 {
        1
    } else {
        v
    }
}

/// The address of a page of the document list.
pub open spec fn page_url(page: nat, size: nat) -> Seq<char> {
    demo_base_url() + "/api/documents/?page="@ + decimal(page) + "&page_size="@ + decimal(size)
}

/// The path a page of the document list is answered at.
pub open spec fn page_path(page: nat, size: nat) -> Seq<char> {
    "documents/?page="@ + decimal(page) + "&page_size="@ + decimal(size)
}

/// A page of a list of rows: the count of all of them, the addresses of the
/// pages before and after where there are any, and the rows of the page.
pub open spec fn page_fields(rows: Seq<Fields>, page: usize, size: usize) -> Fields {
    let len = rows.len() as int;
    let start = (page - 1) * size;
    let end = if start + size < len {
        start + size
    } else {
        len
    };
    seq![
        ("count"@, FieldSpec::Number(len as u64)),
        (
            "next"@,
            FieldSpec::OptText(
                if end < len {
                    Some(page_url((page + 1) as nat, size as nat))
                } else {
                    None
                },
            ),
        ),
        (
            "previous"@,
            FieldSpec::OptText(
                if page > 1 {
                    Some(page_url((page - 1) as nat, size as nat))
                } else {
                    None
                },
            ),
        ),
        (
            "results"@,
            FieldSpec::Objects(
                if start < len {
                    rows.subrange(start, end)
                } else {
                    Seq::empty()
                },
            ),
        ),
    ]
}

fn page_number(query: &[(String, String)], key: &str, default: usize) -> (res: usize)
    ensures
        res == page_param(pairs_view(query@), key@, default),
{
    let v = match query_chars(query, key) {
        Some(text) => match parse_usize(text.as_slice()) {
            Some(n) => n,
            None => default,
        },
        None => default,
    };
    if v < 1 {
        1
    } else {
        v
    }
}

fn page_url_value(page: usize, size: usize) -> (res: JsonValue)
    ensures
        is_json_string(res, page_url(page as nat, size as nat)),
{
    let mut url = chars_of("https://demo.paperless.local");
    let query = chars_of("/api/documents/?page=");
    append_chars(&mut url, query.as_slice());
    let p = decimal_chars(page as u64);
    append_chars(&mut url, p.as_slice());
    let sep = chars_of("&page_size=");
    append_chars(&mut url, sep.as_slice());
    let s = decimal_chars(size as u64);
    append_chars(&mut url, s.as_slice());
    JsonValue::String(string_of(url.as_slice()))
}

fn page_path_chars(page: usize, size: usize) -> (res: Vec<char>)
    ensures
        res@ == page_path(page as nat, size as nat),
{
    let mut path = chars_of("documents/?page=");
    let p = decimal_chars(page as u64);
    append_chars(&mut path, p.as_slice());
    let sep = chars_of("&page_size=");
    append_chars(&mut path, sep.as_slice());
    let s = decimal_chars(size as u64);
    append_chars(&mut path, s.as_slice());
    path
}

/// The answer to a listing of documents with the given query parameters.
pub open spec fn page_answer(res: Result<ResponseData, AppError>, query: Seq<(Seq<char>, Seq<char>)>) -> bool {
    let page = page_param(query, "page"@, 1);
    let size = page_param(query, "page_size"@, 25);
    answers_object(
        res,
        page_path(page as nat, size as nat),
        page_fields(found_documents(search_term(query, "query"@)), page, size),
    )
}

/// The demo document list, one page at a time: the documents that match
/// `query`, page `page` (default 1) of `page_size` (default 25).
pub fn paginated_documents(query: &[(String, String)]) -> (res: Result<ResponseData, AppError>)
    ensures
        page_answer(res, pairs_view(query@)),
{
    let search = search_chars(query, "query");
    let all = demo_documents();
    proof {
        lemma_demo_rows();
        lemma_document_filter(all@, document_rows(), search@);
    }
    let mut documents = filter_documents(all, search.as_slice());
    let ghost rows = found_documents(search@);
    let ghost docs_view = documents@;
    let page = page_number(query, "page", 1);
    let size = page_number(query, "page_size", 25);
    let len = documents.len();
    let start: usize = match (page - 1).checked_mul(size) {
        Some(x) => x,
        None => usize::MAX,
    };
    let ghost start_m = (page - 1) * size;
    assert(start_m >= page - 1) by (nonlinear_arith)
        requires
            start_m == (page - 1) * size,
            size >= 1,
            page >= 1,
    ;
    let end: usize = if start < len {
        if size < len - start {
            start + size
        } else {
            len
        }
    } else {
        len
    };
    let ghost f = page_fields(rows, page, size);
    let ghost mut g: Fields = Seq::empty();
    let mut e: Vec<(String, JsonValue)> = Vec::new();
    push_entry(&mut e, "count", json_number(len as u64), Ghost(g), Ghost(f[0].1));
    proof { g = g.push(f[0]); }
    let next = if end < len {
        page_url_value(page + 1, size)
    } else {
        JsonValue::Null
    };
    push_entry(&mut e, "next", next, Ghost(g), Ghost(f[1].1));
    proof { g = g.push(f[1]); }
    let previous = if page > 1 {
        page_url_value(page - 1, size)
    } else {
        JsonValue::Null
    };
    push_entry(&mut e, "previous", previous, Ghost(g), Ghost(f[2].1));
    proof { g = g.push(f[2]); }
    let results = if start < len {
        documents.truncate(end);
        let page_items = documents.split_off(start);
        proof {
            crate::demo_data::lemma_items_fit_subrange(
                docs_view,
                rows,
                start as int,
                end as int,
            );
        }
        page_items
    } else {
        Vec::new()
    };
    push_entry(&mut e, "results", JsonValue::Array(results), Ghost(g), Ghost(f[3].1));
    proof { g = g.push(f[3]); }
    assert(g =~= f);
    proof {
        lemma_object_fits(e, f);
    }
    let path = page_path_chars(page, size);
    ok_json(path.as_slice(), JsonValue::Object(e))
}


// ---------------------------------------------------------------------------
// Fixed answers
// ---------------------------------------------------------------------------

/// The server status.
pub open spec fn status_fields() -> Fields {
    seq![("version"@, FieldSpec::Text("demo-2026.4"@)), ("demo"@, FieldSpec::Flag(true))]
}

/// The library statistics: six documents, two of them in the inbox.
pub open spec fn statistics_fields() -> Fields {
    seq![
        ("documents_total"@, FieldSpec::Number(6)),
        ("documents_inbox"@, FieldSpec::Number(2)),
        ("storage_size"@, FieldSpec::Text("42 MB"@)),
        ("demo"@, FieldSpec::Flag(true)),
    ]
}

/// The answer to an upload: a queued task.
pub open spec fn upload_fields() -> Fields {
    seq![
        ("task_id"@, FieldSpec::Text("demo-task-upload-001"@)),
        ("status"@, FieldSpec::Text("queued"@)),
        ("demo"@, FieldSpec::Flag(true)),
    ]
}

/// The answer to a bulk edit.
pub open spec fn bulk_edit_fields() -> Fields {
    seq![("result"@, FieldSpec::Text("OK"@)), ("demo"@, FieldSpec::Flag(true))]
}

/// The name under which the demo serves a bulk download.
pub open spec fn export_disposition() -> Seq<char> {
    "attachment; filename=\"paperless-demo-export.zip\""@
}

/// The bytes of the demo bulk download: a ZIP signature and `DEMO`.
pub open spec fn export_bytes() -> Seq<u8> {
    seq![0x50u8, 0x4b, 0x03, 0x04, 68, 69, 77, 79]
}

fn status_answer(path: &[char]) -> (res: Result<ResponseData, AppError>)
    ensures
        answers_object(res, path@, status_fields()),
{
    let ghost mut f: Fields = Seq::empty();
    let mut e: Vec<(String, JsonValue)> = Vec::new();
    push_entry(&mut e, "version", json_text("demo-2026.4"), Ghost(f), Ghost(FieldSpec::Text("demo-2026.4"@)));
    proof { f = f.push(("version"@, FieldSpec::Text("demo-2026.4"@))); }
    push_entry(&mut e, "demo", JsonValue::Bool(true), Ghost(f), Ghost(FieldSpec::Flag(true)));
    proof { f = f.push(("demo"@, FieldSpec::Flag(true))); }
    assert(f =~= status_fields());
    proof {
        lemma_object_fits(e, f);
    }
    ok_json(path, JsonValue::Object(e))
}

fn statistics_answer(path: &[char]) -> (res: Result<ResponseData, AppError>)
    ensures
        answers_object(res, path@, statistics_fields()),
{
    let documents = demo_documents();
    proof {
        lemma_demo_rows();
    }
    let total = documents.len() as u64;
    let ghost mut f: Fields = Seq::empty();
    let mut e: Vec<(String, JsonValue)> = Vec::new();
    push_entry(&mut e, "documents_total", json_number(total), Ghost(f), Ghost(FieldSpec::Number(6)));
    proof { f = f.push(("documents_total"@, FieldSpec::Number(6))); }
    push_entry(&mut e, "documents_inbox", json_number(2), Ghost(f), Ghost(FieldSpec::Number(2)));
    proof { f = f.push(("documents_inbox"@, FieldSpec::Number(2))); }
    push_entry(&mut e, "storage_size", json_text("42 MB"), Ghost(f), Ghost(FieldSpec::Text("42 MB"@)));
    proof { f = f.push(("storage_size"@, FieldSpec::Text("42 MB"@))); }
    push_entry(&mut e, "demo", JsonValue::Bool(true), Ghost(f), Ghost(FieldSpec::Flag(true)));
    proof { f = f.push(("demo"@, FieldSpec::Flag(true))); }
    assert(f =~= statistics_fields());
    proof {
        lemma_object_fits(e, f);
    }
    ok_json(path, JsonValue::Object(e))
}

fn upload_answer(path: &[char]) -> (res: Result<ResponseData, AppError>)
    ensures
        answers_object(res, path@, upload_fields()),
{
    let ghost mut f: Fields = Seq::empty();
    let mut e: Vec<(String, JsonValue)> = Vec::new();
    push_entry(&mut e, "task_id", json_text("demo-task-upload-001"), Ghost(f), Ghost(FieldSpec::Text("demo-task-upload-001"@)));
    proof { f = f.push(("task_id"@, FieldSpec::Text("demo-task-upload-001"@))); }
    push_entry(&mut e, "status", json_text("queued"), Ghost(f), Ghost(FieldSpec::Text("queued"@)));
    proof { f = f.push(("status"@, FieldSpec::Text("queued"@))); }
    push_entry(&mut e, "demo", JsonValue::Bool(true), Ghost(f), Ghost(FieldSpec::Flag(true)));
    proof { f = f.push(("demo"@, FieldSpec::Flag(true))); }
    assert(f =~= upload_fields());
    proof {
        lemma_object_fits(e, f);
    }
    ok_json(path, JsonValue::Object(e))
}

fn bulk_edit_answer(path: &[char]) -> (res: Result<ResponseData, AppError>)
    ensures
        answers_object(res, path@, bulk_edit_fields()),
{
    let ghost mut f: Fields = Seq::empty();
    let mut e: Vec<(String, JsonValue)> = Vec::new();
    push_entry(&mut e, "result", json_text("OK"), Ghost(f), Ghost(FieldSpec::Text("OK"@)));
    proof { f = f.push(("result"@, FieldSpec::Text("OK"@))); }
    push_entry(&mut e, "demo", JsonValue::Bool(true), Ghost(f), Ghost(FieldSpec::Flag(true)));
    proof { f = f.push(("demo"@, FieldSpec::Flag(true))); }
    assert(f =~= bulk_edit_fields());
    proof {
        lemma_object_fits(e, f);
    }
    ok_json(path, JsonValue::Object(e))
}

fn list_answer(path: &[char], items: Vec<JsonValue>, Ghost(rows): Ghost<Seq<Fields>>) -> (res: Result<ResponseData, AppError>)
    requires
        items_fit(items@, rows),
    ensures
        answers_value(res, path@, FieldSpec::Objects(rows)),
{
    let body = JsonValue::Array(items);
    assert(value_fits(body, FieldSpec::Objects(rows)));
    ok_json(path, body)
}

/// A deletion answer: status 204 and nothing else.
pub open spec fn is_empty_answer(res: Result<ResponseData, AppError>, path: Seq<char>) -> bool {
    res matches Ok(r) && r.status == 204 && r.url@ == demo_url_spec(path) && r.headers@.len() == 0
        && r.body@.len() == 0
}


// ---------------------------------------------------------------------------
// Routing
// ---------------------------------------------------------------------------

/// What the demo server does with a request.
#[derive(Clone, Copy, Debug, PartialEq, Eq, Structural)]
pub enum DemoRoute {
    Status,
    Statistics,
    DocumentList,
    DocumentDetail,
    DocumentDownload,
    DocumentPreview,
    DocumentThumb,
    UploadDocument,
    PatchDocument,
    DeleteItem,
    TagList,
    TagDetail,
    CreateTag,
    PatchTag,
    CorrespondentList,
    CorrespondentDetail,
    CreateMatcher,
    DocumentTypeList,
    DocumentTypeDetail,
    TaskList,
    TaskDetail,
    Search,
    Autocomplete,
    BulkDownload,
    BulkEdit,
    Unknown,
}

/// The segments of a request path: the pieces between slashes, none empty.
pub open spec fn demo_segments(path: Seq<char>) -> Seq<Seq<char>> {
    split_on(trim_matches(path, '/'), '/').filter(nonempty_piece())
}

/// The segments are exactly `[a]`.
pub open spec fn is_one(s: Seq<Seq<char>>, a: Seq<char>) -> bool {
    s.len() == 1 && s[0] == a
}

/// The segments are `[a, anything]`.
pub open spec fn is_item(s: Seq<Seq<char>>, a: Seq<char>) -> bool {
    s.len() == 2 && s[0] == a
}

/// The segments are exactly `[a, b]`.
pub open spec fn is_two(s: Seq<Seq<char>>, a: Seq<char>, b: Seq<char>) -> bool {
    s.len() == 2 && s[0] == a && s[1] == b
}

/// The segments are `[a, anything, c]`.
pub open spec fn is_item_part(s: Seq<Seq<char>>, a: Seq<char>, c: Seq<char>) -> bool {
    s.len() == 3 && s[0] == a && s[2] == c
}

/// The route of a request, by its method and segments; the first rule that
/// applies decides.
pub open spec fn demo_route(m: HttpMethod, s: Seq<Seq<char>>) -> DemoRoute {
    if m is Get && is_one(s, "status"@) {
        DemoRoute::Status
    } else if m is Get && is_one(s, "statistics"@) {
        DemoRoute::Statistics
    } else if m is Get && is_one(s, "documents"@) {
        DemoRoute::DocumentList
    } else if m is Get && is_item(s, "documents"@) {
        DemoRoute::DocumentDetail
    } else if m is Get && is_item_part(s, "documents"@, "download"@) {
        DemoRoute::DocumentDownload
    } else if m is Get && is_item_part(s, "documents"@, "preview"@) {
        DemoRoute::DocumentPreview
    } else if m is Get && is_item_part(s, "documents"@, "thumb"@) {
        DemoRoute::DocumentThumb
    } else if m is Post && is_two(s, "documents"@, "post_document"@) {
        DemoRoute::UploadDocument
    } else if (m is Patch || m is Put) && is_item(s, "documents"@) {
        DemoRoute::PatchDocument
    } else if m is Delete && is_item(s, "documents"@) {
        DemoRoute::DeleteItem
    } else if m is Get && is_one(s, "tags"@) {
        DemoRoute::TagList
    } else if m is Get && is_item(s, "tags"@) {
        DemoRoute::TagDetail
    } else if m is Post && is_one(s, "tags"@) {
        DemoRoute::CreateTag
    } else if m is Patch && is_item(s, "tags"@) {
        DemoRoute::PatchTag
    } else if m is Delete && is_item(s, "tags"@) {
        DemoRoute::DeleteItem
    } else if m is Get && is_one(s, "correspondents"@) {
        DemoRoute::CorrespondentList
    } else if m is Get && is_item(s, "correspondents"@) {
        DemoRoute::CorrespondentDetail
    } else if m is Post && is_one(s, "correspondents"@) {
        DemoRoute::CreateMatcher
    } else if m is Delete && is_item(s, "correspondents"@) {
        DemoRoute::DeleteItem
    } else if m is Get && is_one(s, "document_types"@) {
        DemoRoute::DocumentTypeList
    } else if m is Get && is_item(s, "document_types"@) {
        DemoRoute::DocumentTypeDetail
    } else if m is Post && is_one(s, "document_types"@) {
        DemoRoute::CreateMatcher
    } else if m is Delete && is_item(s, "document_types"@) {
        DemoRoute::DeleteItem
    } else if m is Get && is_one(s, "tasks"@) {
        DemoRoute::TaskList
    } else if m is Get && is_item(s, "tasks"@) {
        DemoRoute::TaskDetail
    } else if m is Get && is_one(s, "search"@) {
        DemoRoute::Search
    } else if m is Get && is_two(s, "search"@, "autocomplete"@) {
        DemoRoute::Autocomplete
    } else if m is Post && is_two(s, "documents"@, "bulk_download"@) {
        DemoRoute::BulkDownload
    } else if m is Post && is_two(s, "documents"@, "bulk_edit"@) {
        DemoRoute::BulkEdit
    } else {
        DemoRoute::Unknown
    }
}

fn segment_is(s: &Vec<Vec<char>>, i: usize, lit: &str) -> (res: bool)
    requires
        i < s@.len(),
    ensures
        res == (s@[i as int]@ == lit@),
{
    let l = chars_of(lit);
    chars_equal(s[i].as_slice(), l.as_slice())
}

fn one(s: &Vec<Vec<char>>, a: &str) -> (res: bool)
    ensures
        res == is_one(char_seqs(s@), a@),
{
    s.len() == 1 && segment_is(s, 0, a)
}

fn item(s: &Vec<Vec<char>>, a: &str) -> (res: bool)
    ensures
        res == is_item(char_seqs(s@), a@),
{
    s.len() == 2 && segment_is(s, 0, a)
}

fn two(s: &Vec<Vec<char>>, a: &str, b: &str) -> (res: bool)
    ensures
        res == is_two(char_seqs(s@), a@, b@),
{
    s.len() == 2 && segment_is(s, 0, a) && segment_is(s, 1, b)
}

fn item_part(s: &Vec<Vec<char>>, a: &str, c: &str) -> (res: bool)
    ensures
        res == is_item_part(char_seqs(s@), a@, c@),
{
    s.len() == 3 && segment_is(s, 0, a) && segment_is(s, 2, c)
}

/// The route of a request.
pub fn classify(m: &HttpMethod, s: &Vec<Vec<char>>) -> (res: DemoRoute)
    ensures
        res == demo_route(*m, char_seqs(s@)),
{
    let get = matches!(m, HttpMethod::Get);
    let post = matches!(m, HttpMethod::Post);
    let patch = matches!(m, HttpMethod::Patch);
    let put = matches!(m, HttpMethod::Put);
    let delete = matches!(m, HttpMethod::Delete);
    if get && one(s, "status") {
        DemoRoute::Status
    } else if get && one(s, "statistics") {
        DemoRoute::Statistics
    } else if get && one(s, "documents") {
        DemoRoute::DocumentList
    } else if get && item(s, "documents") {
        DemoRoute::DocumentDetail
    } else if get && item_part(s, "documents", "download") {
        DemoRoute::DocumentDownload
    } else if get && item_part(s, "documents", "preview") {
        DemoRoute::DocumentPreview
    } else if get && item_part(s, "documents", "thumb") {
        DemoRoute::DocumentThumb
    } else if post && two(s, "documents", "post_document") {
        DemoRoute::UploadDocument
    } else if (patch || put) && item(s, "documents") {
        DemoRoute::PatchDocument
    } else if delete && item(s, "documents") {
        DemoRoute::DeleteItem
    } else if get && one(s, "tags") {
        DemoRoute::TagList
    } else if get && item(s, "tags") {
        DemoRoute::TagDetail
    } else if post && one(s, "tags") {
        DemoRoute::CreateTag
    } else if patch && item(s, "tags") {
        DemoRoute::PatchTag
    } else if delete && item(s, "tags") {
        DemoRoute::DeleteItem
    } else if get && one(s, "correspondents") {
        DemoRoute::CorrespondentList
    } else if get && item(s, "correspondents") {
        DemoRoute::CorrespondentDetail
    } else if post && one(s, "correspondents") {
        DemoRoute::CreateMatcher
    } else if delete && item(s, "correspondents") {
        DemoRoute::DeleteItem
    } else if get && one(s, "document_types") {
        DemoRoute::DocumentTypeList
    } else if get && item(s, "document_types") {
        DemoRoute::DocumentTypeDetail
    } else if post && one(s, "document_types") {
        DemoRoute::CreateMatcher
    } else if delete && item(s, "document_types") {
        DemoRoute::DeleteItem
    } else if get && one(s, "tasks") {
        DemoRoute::TaskList
    } else if get && item(s, "tasks") {
        DemoRoute::TaskDetail
    } else if get && one(s, "search") {
        DemoRoute::Search
    } else if get && two(s, "search", "autocomplete") {
        DemoRoute::Autocomplete
    } else if post && two(s, "documents", "bulk_download") {
        DemoRoute::BulkDownload
    } else if post && two(s, "documents", "bulk_edit") {
        DemoRoute::BulkEdit
    } else {
        DemoRoute::Unknown
    }
}


/// What the demo server answers a request with: the answer of its route.
pub open spec fn dispatch_answer(
    res: Result<ResponseData, AppError>,
    method: HttpMethod,
    path: Seq<char>,
    query: Seq<(Seq<char>, Seq<char>)>,
    body: Option<JsonValue>,
) -> bool {
    let n = trim_matches(path, '/');
    let s = demo_segments(path);
    match demo_route(method, s) {
        DemoRoute::Status => answers_object(res, n, status_fields()),
        DemoRoute::Statistics => answers_object(res, n, statistics_fields()),
        DemoRoute::DocumentList => page_answer(res, query),
        DemoRoute::DocumentDetail => document_answer(res, s[1]),
        DemoRoute::DocumentDownload => document_file_answer(res, s[1], "download"@, "application/pdf"@),
        DemoRoute::DocumentPreview => document_file_answer(res, s[1], "preview"@, "application/pdf"@),
        DemoRoute::DocumentThumb => document_file_answer(res, s[1], "thumb"@, "image/png"@),
        DemoRoute::UploadDocument => answers_object(res, n, upload_fields()),
        DemoRoute::PatchDocument => patched_document_answer(res, s[1], body),
        DemoRoute::DeleteItem => is_empty_answer(res, n),
        DemoRoute::TagList => answers_value(res, n, FieldSpec::Objects(tag_rows())),
        DemoRoute::TagDetail => item_answer(res, s[1], tag_rows(), n),
        DemoRoute::CreateTag => answers_object(res, "tags/"@, created_tag_fields(body)),
        DemoRoute::PatchTag => patched_item_answer(res, s[1], tag_rows(), n, body),
        DemoRoute::CorrespondentList => answers_value(res, n, FieldSpec::Objects(correspondent_rows())),
        DemoRoute::CorrespondentDetail => item_answer(res, s[1], correspondent_rows(), n),
        DemoRoute::CreateMatcher => answers_object(res, n, created_matcher_fields(body)),
        DemoRoute::DocumentTypeList => answers_value(res, n, FieldSpec::Objects(document_type_rows())),
        DemoRoute::DocumentTypeDetail => item_answer(res, s[1], document_type_rows(), n),
        DemoRoute::TaskList => answers_value(res, n, FieldSpec::Objects(task_rows())),
        DemoRoute::TaskDetail => item_answer(res, s[1], task_rows(), n),
        DemoRoute::Search => search_answer(res, query),
        DemoRoute::Autocomplete => suggestion_answer(res, query),
        DemoRoute::BulkDownload => is_file_answer(
            res,
            n,
            "application/zip"@,
            Some(export_disposition()),
            export_bytes(),
        ),
        DemoRoute::BulkEdit => answers_object(res, n, bulk_edit_fields()),
        DemoRoute::Unknown => res matches Err(AppError::Http { status, url, message }) && status
            == 404 && url@ == demo_url_spec(n) && message@ == "Demo endpoint not implemented: "@ + n,
    }
}

fn unknown_endpoint(normalized: &[char]) -> (res: Result<ResponseData, AppError>)
    ensures
        res matches Err(AppError::Http { status, url, message }) && status == 404 && url@
            == demo_url_spec(normalized@) && message@ == "Demo endpoint not implemented: "@
            + normalized@,
{
    let mut m = chars_of("Demo endpoint not implemented: ");
    append_chars(&mut m, normalized);
    let url = demo_url_chars(normalized);
    Err(AppError::Http { status: 404, url: string_of(url.as_slice()), message: string_of(m.as_slice()) })
}

fn segment_text(s: &Vec<Vec<char>>, i: usize) -> (res: String)
    requires
        i < s@.len(),
    ensures
        res@ == s@[i as int]@,
{
    string_of(s[i].as_slice())
}

/// The demo server: answers a request from the fixture library.
pub fn dispatch_demo_request(
    method: HttpMethod,
    path: &str,
    query: &[(String, String)],
    json_body: Option<JsonValue>,
) -> (res: Result<ResponseData, AppError>)
    ensures
        dispatch_answer(res, method, path@, pairs_view(query@), json_body),
{
    let chars = chars_of(path);
    let normalized = trim_char(chars.as_slice(), '/');
    let pieces = split_chars(normalized.as_slice(), '/');
    let segs = nonempty_pieces(&pieces);
    let ghost sv = char_seqs(segs@);
    assert(sv == demo_segments(path@));
    assert forall|i: int| 0 <= i < segs@.len() implies #[trigger] segs@[i]@ == sv[i] by {}
    let route = classify(&method, &segs);
    let n = normalized.as_slice();
    proof {
        lemma_demo_rows();
    }
    match route {
        DemoRoute::Status => status_answer(n),
        DemoRoute::Statistics => statistics_answer(n),
        DemoRoute::DocumentList => paginated_documents(query),
        DemoRoute::DocumentDetail => document_detail(segment_text(&segs, 1).as_str()),
        DemoRoute::DocumentDownload => document_binary(segment_text(&segs, 1).as_str(), "download", "application/pdf"),
        DemoRoute::DocumentPreview => document_binary(segment_text(&segs, 1).as_str(), "preview", "application/pdf"),
        DemoRoute::DocumentThumb => document_binary(segment_text(&segs, 1).as_str(), "thumb", "image/png"),
        DemoRoute::UploadDocument => upload_answer(n),
        DemoRoute::PatchDocument => patch_document(segment_text(&segs, 1).as_str(), json_body),
        DemoRoute::DeleteItem => empty_response(string_of(n).as_str()),
        DemoRoute::TagList => list_answer(n, demo_tags(), Ghost(tag_rows())),
        DemoRoute::TagDetail => item_detail(segment_text(&segs, 1).as_str(), demo_tags(), Ghost(tag_rows()), n),
        DemoRoute::CreateTag => create_tag_response(json_body),
        DemoRoute::PatchTag => patch_named_item(segment_text(&segs, 1).as_str(), demo_tags(), Ghost(tag_rows()), n, json_body),
        DemoRoute::CorrespondentList => list_answer(n, demo_correspondents(), Ghost(correspondent_rows())),
        DemoRoute::CorrespondentDetail => item_detail(
            segment_text(&segs, 1).as_str(),
            demo_correspondents(),
            Ghost(correspondent_rows()),
            n,
        ),
        DemoRoute::CreateMatcher => create_named_matcher(string_of(n).as_str(), json_body),
        DemoRoute::DocumentTypeList => list_answer(n, demo_document_types(), Ghost(document_type_rows())),
        DemoRoute::DocumentTypeDetail => item_detail(
            segment_text(&segs, 1).as_str(),
            demo_document_types(),
            Ghost(document_type_rows()),
            n,
        ),
        DemoRoute::TaskList => list_answer(n, demo_tasks(), Ghost(task_rows())),
        DemoRoute::TaskDetail => item_detail(segment_text(&segs, 1).as_str(), demo_tasks(), Ghost(task_rows()), n),
        DemoRoute::Search => search_documents(query),
        DemoRoute::Autocomplete => autocomplete(query),
        DemoRoute::BulkDownload => {
            let bytes = vec![0x50u8, 0x4b, 0x03, 0x04, 68, 69, 77, 79];
            let disposition = string_of(chars_of("attachment; filename=\"paperless-demo-export.zip\"").as_slice());
            ok_binary(string_of(n).as_str(), bytes, "application/zip", Some(disposition))
        },
        DemoRoute::BulkEdit => bulk_edit_answer(n),
        DemoRoute::Unknown => unknown_endpoint(n),
    }
}

/// Slashes around a request path never matter: the demo server gives
/// `/{path}/` the same answer, or the same error, as `path`.
pub proof fn law_dispatch_ignores_outer_slashes(
    res: Result<ResponseData, AppError>,
    method: HttpMethod,
    path: Seq<char>,
    query: Seq<(Seq<char>, Seq<char>)>,
    body: Option<JsonValue>,
)
    ensures
        dispatch_answer(res, method, seq!['/'] + path + seq!['/'], query, body) == dispatch_answer(
            res,
            method,
            path,
            query,
            body,
        ),
{
    lemma_trim_matches_outer(path, '/');
}

/// The path `coll/raw/` of an item: trimmed it is `coll/raw`, and its
/// segments are `[coll, raw]`.
proof fn lemma_item_segments(coll: Seq<char>, raw: Seq<char>)
    requires
        coll.len() > 0,
        raw.len() > 0,
        forall|i: int| 0 <= i < coll.len() ==> coll[i] != '/',
        forall|i: int| 0 <= i < raw.len() ==> raw[i] != '/',
    ensures
        trim_matches(coll + seq!['/'] + raw + seq!['/'], '/') == coll + seq!['/'] + raw,
        demo_segments(coll + seq!['/'] + raw + seq!['/']) == seq![coll, raw],
{
    let w = coll + seq!['/'] + raw;
    lemma_trim_matches_trailing(w, '/');
    assert(w[0] == coll[0]);
    assert(w.last() == raw.last());
    lemma_trim_matches_none(w, '/');
    let parts = seq![coll, raw];
    assert(parts.drop_last() =~= seq![coll]);
    assert(join(seq![coll], seq!['/']) == coll);
    assert(parts.last() == raw);
    assert(join(parts, seq!['/']) == join(parts.drop_last(), seq!['/']) + seq!['/'] + parts.last());
    assert(join(parts, seq!['/']) =~= w);
    assert forall|k: int, j: int| 0 <= k < parts.len() && 0 <= j < parts[k].len() implies #[trigger] parts[k][j]
        != '/' by {
        if k == 0 {
            assert(parts[k] == coll);
        } else {
            assert(parts[k] == raw);
        }
    }
    lemma_split_join(parts, '/');
    assert forall|k: int| 0 <= k < parts.len() implies #[trigger] nonempty_piece()(parts[k]) by {}
    lemma_filter_all(parts, nonempty_piece());
}

/// Text that reads as a number is not empty and holds no slash.
proof fn lemma_number_text(raw: Seq<char>)
    requires
        parse_u64_spec(raw) is Some,
    ensures
        raw.len() > 0,
        forall|i: int| 0 <= i < raw.len() ==> raw[i] != '/',
{
    let digits = if raw.len() > 0 && raw[0] == '+' {
        raw.drop_first()
    } else {
        raw
    };
    assert forall|i: int| 0 <= i < raw.len() implies raw[i] != '/' by {
        if raw[0] == '+' {
            if i > 0 {
                assert(raw[i] == digits[i - 1]);
                assert(is_ascii_digit(digits[i - 1]));
            }
        } else {
            assert(is_ascii_digit(digits[i]));
        }
    }
}

/// The answer to a GET of `coll/raw/` that reaches the detail route of
/// `rows`: the row whose identifier `raw` reads as.
proof fn lemma_item_lookup(
    res: Result<ResponseData, AppError>,
    coll: Seq<char>,
    raw: Seq<char>,
    rows: Seq<Fields>,
    k: int,
)
    requires
        0 <= k < rows.len(),
        row_id(rows[k]) is Some,
        forall|j: int| 0 <= j < k ==> row_id(#[trigger] rows[j]) != row_id(rows[k]),
        parse_u64_spec(raw) == row_id(rows[k]),
        item_answer(res, raw, rows, coll + seq!['/'] + raw),
    ensures
        answers_object(res, coll + seq!['/'] + raw, rows[k]),
{
    lemma_first_row_at(rows, k);
}

/// A demo GET of `correspondents/{id}/`, for the identifier of any demo
/// correspondent (in any notation that reads as that number), is answered
/// with that correspondent.
pub proof fn law_demo_correspondent_by_id(
    res: Result<ResponseData, AppError>,
    raw: Seq<char>,
    k: int,
    query: Seq<(Seq<char>, Seq<char>)>,
    body: Option<JsonValue>,
)
    requires
        0 <= k < correspondent_rows().len(),
        parse_u64_spec(raw) == row_id(correspondent_rows()[k]),
        dispatch_answer(res, HttpMethod::Get, "correspondents/"@ + raw + "/"@, query, body),
    ensures
        answers_object(res, "correspondents/"@ + raw, correspondent_rows()[k]),
{
    reveal_strlit("correspondents/");
    reveal_strlit("/");
    reveal_strlit("correspondents");
    reveal_strlit("documents");
    reveal_strlit("tags");
    let coll = "correspondents"@;
    let rows = correspondent_rows();
    lemma_number_text(raw);
    assert("correspondents/"@ + raw + "/"@ =~= coll + seq!['/'] + raw + seq!['/']);
    assert("correspondents/"@ + raw =~= coll + seq!['/'] + raw);
    lemma_item_segments(coll, raw);
    assert(row_id(rows[0]) == Some(11u64));
    assert(row_id(rows[1]) == Some(12u64));
    assert(row_id(rows[2]) == Some(13u64));
    assert(row_id(rows[3]) == Some(14u64));
    assert(row_id(rows[4]) == Some(15u64));
    assert(row_id(rows[5]) == Some(16u64));
    lemma_item_lookup(res, coll, raw, rows, k);
}

/// A demo GET of `documents/{id}/`, for the identifier of any demo document
/// (in any notation that reads as that number), is answered with that
/// document.
pub proof fn law_demo_document_by_id(
    res: Result<ResponseData, AppError>,
    raw: Seq<char>,
    k: int,
    query: Seq<(Seq<char>, Seq<char>)>,
    body: Option<JsonValue>,
)
    requires
        0 <= k < document_rows().len(),
        parse_u64_spec(raw) == row_id(document_rows()[k]),
        dispatch_answer(res, HttpMethod::Get, "documents/"@ + raw + "/"@, query, body),
    ensures
        answers_object(res, document_path(row_id(document_rows()[k])->0), document_rows()[k]),
{
    reveal_strlit("documents/");
    reveal_strlit("/");
    reveal_strlit("documents");
    let coll = "documents"@;
    let rows = document_rows();
    let t = demo_document_table();
    lemma_number_text(raw);
    assert("documents/"@ + raw + "/"@ =~= coll + seq!['/'] + raw + seq!['/']);
    lemma_item_segments(coll, raw);
    assert(rows[0] == document_fields(t[0]));
    assert(rows[1] == document_fields(t[1]));
    assert(rows[2] == document_fields(t[2]));
    assert(rows[3] == document_fields(t[3]));
    assert(rows[4] == document_fields(t[4]));
    assert(rows[5] == document_fields(t[5]));
    assert(row_id(rows[0]) == Some(301u64));
    assert(row_id(rows[1]) == Some(302u64));
    assert(row_id(rows[2]) == Some(303u64));
    assert(row_id(rows[3]) == Some(304u64));
    assert(row_id(rows[4]) == Some(305u64));
    assert(row_id(rows[5]) == Some(306u64));
    lemma_first_row_at(rows, k);
}

/// A demo GET of `tags/{id}/`, for the identifier of any demo tag
/// (in any notation that reads as that number), is answered with that
/// tag.
pub proof fn law_demo_tag_by_id(
    res: Result<ResponseData, AppError>,
    raw: Seq<char>,
    k: int,
    query: Seq<(Seq<char>, Seq<char>)>,
    body: Option<JsonValue>,
)
    requires
        0 <= k < tag_rows().len(),
        parse_u64_spec(raw) == row_id(tag_rows()[k]),
        dispatch_answer(res, HttpMethod::Get, "tags/"@ + raw + "/"@, query, body),
    ensures
        answers_object(res, "tags/"@ + raw, tag_rows()[k]),
{
    reveal_strlit("tags/");
    reveal_strlit("/");
    reveal_strlit("tags");
    reveal_strlit("documents");
    let coll = "tags"@;
    let rows = tag_rows();
    lemma_number_text(raw);
    assert("tags/"@ + raw + "/"@ =~= coll + seq!['/'] + raw + seq!['/']);
    assert("tags/"@ + raw =~= coll + seq!['/'] + raw);
    lemma_item_segments(coll, raw);
    assert(row_id(rows[0]) == Some(22u64));
    assert(row_id(rows[1]) == Some(59u64));
    assert(row_id(rows[2]) == Some(60u64));
    assert(row_id(rows[3]) == Some(61u64));
    lemma_item_lookup(res, coll, raw, rows, k);
}

/// A demo GET of `document_types/{id}/`, for the identifier of any demo document type
/// (in any notation that reads as that number), is answered with that
/// document type.
pub proof fn law_demo_document_type_by_id(
    res: Result<ResponseData, AppError>,
    raw: Seq<char>,
    k: int,
    query: Seq<(Seq<char>, Seq<char>)>,
    body: Option<JsonValue>,
)
    requires
        0 <= k < document_type_rows().len(),
        parse_u64_spec(raw) == row_id(document_type_rows()[k]),
        dispatch_answer(res, HttpMethod::Get, "document_types/"@ + raw + "/"@, query, body),
    ensures
        answers_object(res, "document_types/"@ + raw, document_type_rows()[k]),
{
    reveal_strlit("document_types/");
    reveal_strlit("/");
    reveal_strlit("document_types");
    reveal_strlit("documents");
    reveal_strlit("tags");
    reveal_strlit("correspondents");
    let coll = "document_types"@;
    let rows = document_type_rows();
    lemma_number_text(raw);
    assert("document_types/"@ + raw + "/"@ =~= coll + seq!['/'] + raw + seq!['/']);
    assert("document_types/"@ + raw =~= coll + seq!['/'] + raw);
    lemma_item_segments(coll, raw);
    assert(row_id(rows[0]) == Some(7u64));
    assert(row_id(rows[1]) == Some(8u64));
    assert(row_id(rows[2]) == Some(9u64));
    assert(row_id(rows[3]) == Some(10u64));
    lemma_item_lookup(res, coll, raw, rows, k);
}

/// A demo GET of `tasks/{id}/`, for the identifier of any demo task
/// (in any notation that reads as that number), is answered with that
/// task.
pub proof fn law_demo_task_by_id(
    res: Result<ResponseData, AppError>,
    raw: Seq<char>,
    k: int,
    query: Seq<(Seq<char>, Seq<char>)>,
    body: Option<JsonValue>,
)
    requires
        0 <= k < task_rows().len(),
        parse_u64_spec(raw) == row_id(task_rows()[k]),
        dispatch_answer(res, HttpMethod::Get, "tasks/"@ + raw + "/"@, query, body),
    ensures
        answers_object(res, "tasks/"@ + raw, task_rows()[k]),
{
    reveal_strlit("tasks/");
    reveal_strlit("/");
    reveal_strlit("tasks");
    reveal_strlit("documents");
    reveal_strlit("tags");
    reveal_strlit("correspondents");
    reveal_strlit("document_types");
    let coll = "tasks"@;
    let rows = task_rows();
    lemma_number_text(raw);
    assert("tasks/"@ + raw + "/"@ =~= coll + seq!['/'] + raw + seq!['/']);
    assert("tasks/"@ + raw =~= coll + seq!['/'] + raw);
    lemma_item_segments(coll, raw);
    assert(row_id(rows[0]) == Some(901u64));
    assert(row_id(rows[1]) == Some(902u64));
    lemma_item_lookup(res, coll, raw, rows, k);
}


// ---------------------------------------------------------------------------
// The transport
// ---------------------------------------------------------------------------

/// What `reqwest::Url::parse` makes of a URL: the parsed URL's `path()` and
/// its `query_pairs()`, decoded (`None` where parsing reports an error).
pub uninterp spec fn parsed_url(url: Seq<char>) -> Option<(Seq<char>, Seq<(Seq<char>, Seq<char>)>)>;

/// `reqwest::Url::parse`, then the path and the decoded query pairs of the
/// result. The contract only names the result: it is `parsed_url` of the
/// text.
#[verifier::external_body]
fn parse_url(url: &str) -> (res: Option<(String, Vec<(String, String)>)>)
    ensures
        match res {
            Some((path, query)) => parsed_url(url@) == Some((path@, pairs_view(query@))),
            None => parsed_url(url@) is None,
        },
{
    match reqwest::Url::parse(url) {
        Ok(parsed) => Some((
            parsed.path().to_string(),
            parsed.query_pairs().map(|(k, v)| (k.into_owned(), v.into_owned())).collect(),
        )),
        Err(_) => None,
    }
}

/// The API path of a full demo URL's path: without leading `/api/` and
/// slashes.
pub open spec fn api_path(path: Seq<char>) -> Seq<char> {
    trim_start_matches(trim_start_seq(path, "/api/"@), '/')
}

/// What the demo transport answers a request with. A relative endpoint is
/// routed with the request's query; a full URL is parsed and routed by its
/// own path and query.
pub open spec fn demo_send_answer(request: RequestData, res: Result<ResponseData, AppError>) -> bool {
    match request.endpoint {
        Endpoint::Relative(path) => dispatch_answer(
            res,
            request.method,
            path@,
            pairs_view(request.query@),
            request.json_body,
        ),
        Endpoint::Absolute(url) => match parsed_url(url@) {
            None => res matches Err(AppError::Message(m)) && m@ == "Invalid demo URL: "@ + url@,
            Some((path, query)) => dispatch_answer(res, request.method, api_path(path), query, request.json_body),
        },
    }
}

/// A transport that answers every request from the demo library.
#[derive(Clone, Default)]
pub struct DemoTransport;

impl DemoTransport {
    pub fn new() -> Self {
        DemoTransport
    }
}

impl Transport for DemoTransport {
    open spec fn answers(&self, request: RequestData, res: Result<ResponseData, AppError>) -> bool {
        demo_send_answer(request, res)
    }

    fn send(&self, request: RequestData) -> (res: Result<ResponseData, AppError>) {
        let RequestData { method, endpoint, query, json_body, form: _ } = request;
        match endpoint {
            Endpoint::Relative(path) => dispatch_demo_request(method, path.as_str(), query.as_slice(), json_body),
            Endpoint::Absolute(url) => match parse_url(url.as_str()) {
                Some((path, pairs)) => {
                    let p = chars_of(path.as_str());
                    let api = chars_of("/api/");
                    let stripped = trim_start_text(p.as_slice(), api.as_slice());
                    let rest = trim_start_char(stripped.as_slice(), '/');
                    let route = string_of(rest.as_slice());
                    dispatch_demo_request(method, route.as_str(), pairs.as_slice(), json_body)
                },
                None => {
                    let mut m = chars_of("Invalid demo URL: ");
                    let u = chars_of(url.as_str());
                    append_chars(&mut m, u.as_slice());
                    Err(AppError::Message(string_of(m.as_slice())))
                },
            },
        }
    }
}

} // verus!
