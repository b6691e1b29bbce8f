//! The fixture library that the demo transport answers from: six documents,
//! their tags, correspondents and document types, and two tasks.
use vstd::prelude::*;

use crate::json::{
    entries_get, is_json_string, json_get, json_number, json_str, json_text, json_u64, JsonValue,
};
use crate::text::{ascii_lowercase, chars_of, contains_chars, contains_seq, to_ascii_lowercase};
use crate::services::{
    entries_fit, entries_fit_scalars, is_scalar_spec, items_fit, lemma_object_fits,
    lemma_scalar_entries, number_array, object_fits, push_entry, scalar_fits, FieldSpec,
};

verus! {

/// The fields of an object, in order, with what each holds.
pub type Fields = Seq<(Seq<char>, FieldSpec)>;

/// A document of the demo library.
pub struct DemoDocument {
    pub id: u64,
    pub title: Seq<char>,
    pub created: Seq<char>,
    pub content: Seq<char>,
    pub file_name: Seq<char>,
    pub page_count: u64,
    pub tags: Seq<u64>,
    pub correspondent: u64,
    pub document_type: u64,
}

/// The JSON fields of a demo document; every one is a PDF.
pub open spec fn document_fields(d: DemoDocument) -> Fields {
    seq![
        ("id"@, FieldSpec::Number(d.id)),
        ("title"@, FieldSpec::Text(d.title)),
        ("created"@, FieldSpec::Text(d.created)),
        ("content"@, FieldSpec::Text(d.content)),
        ("original_file_name"@, FieldSpec::Text(d.file_name)),
        ("page_count"@, FieldSpec::Number(d.page_count)),
        ("mime_type"@, FieldSpec::Text("application/pdf"@)),
        ("tags"@, FieldSpec::Numbers(d.tags)),
        ("correspondent"@, FieldSpec::Number(d.correspondent)),
        ("document_type"@, FieldSpec::Number(d.document_type)),
    ]
}

/// The documents of the demo library.
pub open spec fn demo_document_table() -> Seq<DemoDocument> {
    seq![
        DemoDocument {
            id: 301,
            title: "Quarterly Tax Summary Q1 2026"@,
            created: "2026-04-02"@,
            content: "Quarterly tax summary for the period ending March 2026.\nRevenue: £84,210.13\nTax due: £6,418.22"@,
            file_name: "quarterly-tax-summary-q1-2026.pdf"@,
            page_count: 3,
            tags: seq![22, 59],
            correspondent: 11,
            document_type: 7,
        },
        DemoDocument {
            id: 302,
            title: "Consulting Invoice March 2026"@,
            created: "2026-03-26"@,
            content: "Invoice for March consulting services.\nAmount due: £12,500.00\nDue date: 2026-04-10"@,
            file_name: "consulting-invoice-2026-03.pdf"@,
            page_count: 1,
            tags: seq![22],
            correspondent: 12,
            document_type: 8,
        },
        DemoDocument {
            id: 303,
            title: "Project Delivery Invoice 25-26-010"@,
            created: "2026-04-10"@,
            content: "Invoice REF-25-26-010\nProject delivery and advisory services.\nTotal: £7,840.00"@,
            file_name: "project-delivery-invoice-25-26-010.pdf"@,
            page_count: 2,
            tags: seq![60, 22],
            correspondent: 13,
            document_type: 8,
        },
        DemoDocument {
            id: 304,
            title: "Business Account Statement April 2026"@,
            created: "2026-04-14"@,
            content: "Opening balance £18,902.14\nClosing balance £24,411.91\n22 transactions recorded."@,
            file_name: "business-account-statement-april-2026.pdf"@,
            page_count: 5,
            tags: seq![61],
            correspondent: 14,
            document_type: 9,
        },
        DemoDocument {
            id: 305,
            title: "Equipment Purchase Receipt"@,
            created: "2026-02-18"@,
            content: "Receipt for office equipment purchase.\nVendor: Hardware Supplier Ltd\nTotal paid: £2,149.00"@,
            file_name: "equipment-purchase-receipt.pdf"@,
            page_count: 1,
            tags: seq![59],
            correspondent: 15,
            document_type: 10,
        },
        DemoDocument {
            id: 306,
            title: "Office Rent Invoice April 2026"@,
            created: "2026-04-01"@,
            content: "Monthly office rent invoice.\nPeriod: April 2026\nAmount: £1,250.00"@,
            file_name: "office-rent-invoice-april-2026.pdf"@,
            page_count: 1,
            tags: seq![22, 61],
            correspondent: 16,
            document_type: 8,
        },
    ]
}

/// The rows of the demo documents.
pub open spec fn document_rows() -> Seq<Fields> {
    demo_document_table().map_values(|d: DemoDocument| document_fields(d))
}

/// A demo tag.
pub open spec fn tag_fields(id: u64, name: Seq<char>, color: Seq<char>, inbox: bool) -> Fields {
    seq![
        ("id"@, FieldSpec::Number(id)),
        ("name"@, FieldSpec::Text(name)),
        ("color"@, FieldSpec::Text(color)),
        ("is_inbox_tag"@, FieldSpec::Flag(inbox)),
    ]
}

/// The tags of the demo library.
pub open spec fn tag_rows() -> Seq<Fields> {
    seq![
        tag_fields(22, "finance"@, "#38bdf8"@, false),
        tag_fields(59, "tax"@, "#f59e0b"@, false),
        tag_fields(60, "TODO"@, "#f97316"@, true),
        tag_fields(61, "banking"@, "#10b981"@, false),
    ]
}

/// A demo correspondent or document type, with the automatic matching
/// algorithm.
pub open spec fn matcher_fields(id: u64, name: Seq<char>, pattern: Seq<char>) -> Fields {
    seq![
        ("id"@, FieldSpec::Number(id)),
        ("name"@, FieldSpec::Text(name)),
        ("match"@, FieldSpec::Text(pattern)),
        ("matching_algorithm"@, FieldSpec::Number(0)),
    ]
}

/// The correspondents of the demo library.
pub open spec fn correspondent_rows() -> Seq<Fields> {
    seq![
        matcher_fields(11, "Revenue Authority"@, "tax summary"@),
        matcher_fields(12, "Consulting Client Ltd"@, "consulting invoice"@),
        matcher_fields(13, "Project Customer Ltd"@, "project delivery"@),
        matcher_fields(14, "Business Bank"@, "account statement"@),
        matcher_fields(15, "Hardware Supplier Ltd"@, "equipment purchase"@),
        matcher_fields(16, "Office Landlord Ltd"@, "office rent"@),
    ]
}

/// The document types of the demo library.
pub open spec fn document_type_rows() -> Seq<Fields> {
    seq![
        matcher_fields(7, "tax"@, "vat return"@),
        matcher_fields(8, "invoice"@, "invoice"@),
        matcher_fields(9, "statement"@, "statement"@),
        matcher_fields(10, "receipt"@, "receipt"@),
    ]
}

/// A demo consumption task.
pub open spec fn task_fields(id: u64, status: Seq<char>, file_name: Seq<char>, result: Seq<char>) -> Fields {
    seq![
        ("id"@, FieldSpec::Number(id)),
        ("status"@, FieldSpec::Text(status)),
        ("task_file_name"@, FieldSpec::Text(file_name)),
        ("type"@, FieldSpec::Text("consume_file"@)),
        ("result"@, FieldSpec::Text(result)),
    ]
}

/// The tasks of the demo library.
pub open spec fn task_rows() -> Seq<Fields> {
    seq![
        task_fields(
            901,
            "SUCCESS"@,
            "project-delivery-invoice-25-26-010.pdf"@,
            "Imported into demo library"@,
        ),
        task_fields(902, "PENDING"@, "workspace-rent-april-2026.pdf"@, ""@),
    ]
}

// ---------------------------------------------------------------------------
// Building the fixtures
// ---------------------------------------------------------------------------

/// Every field of a row is a scalar.
pub open spec fn scalar_row(f: Fields) -> bool {
    forall|i: int| 0 <= i < f.len() ==> is_scalar_spec((#[trigger] f[i]).1)
}

/// An object holding exactly the scalar fields of a row.
fn row_object(entries: Vec<(String, JsonValue)>, Ghost(f): Ghost<Fields>) -> (res: JsonValue)
    requires
        entries_fit(entries@, f),
        scalar_row(f),
    ensures
        object_fits(res, f),
        res matches JsonValue::Object(e) && entries_fit_scalars(e@, f),
{
    proof {
        lemma_scalar_entries(entries@, f);
        lemma_object_fits(entries, f);
    }
    JsonValue::Object(entries)
}

fn document_value(
    id: u64,
    title: &str,
    created: &str,
    content: &str,
    file_name: &str,
    page_count: u64,
    tags: &[u64],
    correspondent: u64,
    document_type: u64,
) -> (res: JsonValue)
    ensures
        ({
            let f = document_fields(
                DemoDocument {
                    id,
                    title: title@,
                    created: created@,
                    content: content@,
                    file_name: file_name@,
                    page_count,
                    tags: tags@,
                    correspondent,
                    document_type,
                },
            );
            object_fits(res, f) && (res matches JsonValue::Object(e) && entries_fit_scalars(e@, f))
        }),
{
    let ghost mut f: Fields = Seq::empty();
    let mut e: Vec<(String, JsonValue)> = Vec::new();
    push_entry(&mut e, "id", json_number(id), Ghost(f), Ghost(FieldSpec::Number(id)));
    proof { f = f.push(("id"@, FieldSpec::Number(id))); }
    push_entry(&mut e, "title", json_text(title), Ghost(f), Ghost(FieldSpec::Text(title@)));
    proof { f = f.push(("title"@, FieldSpec::Text(title@))); }
    push_entry(&mut e, "created", json_text(created), Ghost(f), Ghost(FieldSpec::Text(created@)));
    proof { f = f.push(("created"@, FieldSpec::Text(created@))); }
    push_entry(&mut e, "content", json_text(content), Ghost(f), Ghost(FieldSpec::Text(content@)));
    proof { f = f.push(("content"@, FieldSpec::Text(content@))); }
    push_entry(&mut e, "original_file_name", json_text(file_name), Ghost(f), Ghost(FieldSpec::Text(file_name@)));
    proof { f = f.push(("original_file_name"@, FieldSpec::Text(file_name@))); }
    push_entry(&mut e, "page_count", json_number(page_count), Ghost(f), Ghost(FieldSpec::Number(page_count)));
    proof { f = f.push(("page_count"@, FieldSpec::Number(page_count))); }
    push_entry(&mut e, "mime_type", json_text("application/pdf"), Ghost(f), Ghost(FieldSpec::Text("application/pdf"@)));
    proof { f = f.push(("mime_type"@, FieldSpec::Text("application/pdf"@))); }
    push_entry(&mut e, "tags", number_array(tags), Ghost(f), Ghost(FieldSpec::Numbers(tags@)));
    proof { f = f.push(("tags"@, FieldSpec::Numbers(tags@))); }
    push_entry(&mut e, "correspondent", json_number(correspondent), Ghost(f), Ghost(FieldSpec::Number(correspondent)));
    proof { f = f.push(("correspondent"@, FieldSpec::Number(correspondent))); }
    push_entry(&mut e, "document_type", json_number(document_type), Ghost(f), Ghost(FieldSpec::Number(document_type)));
    proof { f = f.push(("document_type"@, FieldSpec::Number(document_type))); }
    let ghost d = DemoDocument {
        id,
        title: title@,
        created: created@,
        content: content@,
        file_name: file_name@,
        page_count,
        tags: tags@,
        correspondent,
        document_type,
    };
    assert(f =~= document_fields(d));
    row_object(e, Ghost(f))
}


/// An object holding exactly the scalar fields `f` is an object that fits
/// them.
pub proof fn lemma_scalar_object(v: JsonValue, f: Fields)
    requires
        v matches JsonValue::Object(e) && entries_fit_scalars(e@, f),
        scalar_row(f),
    ensures
        object_fits(v, f),
{
    if let JsonValue::Object(e) = v {
        assert forall|i: int| 0 <= i < f.len() implies (#[trigger] e@[i]).0@ == f[i].0
            && crate::services::value_fits(e@[i].1, f[i].1) by {
            assert(is_scalar_spec(f[i].1));
        }
    }
}

fn push_row(items: &mut Vec<JsonValue>, v: JsonValue, Ghost(rows): Ghost<Seq<Fields>>, Ghost(f): Ghost<Fields>)
    requires
        items_fit(old(items)@, rows),
        v matches JsonValue::Object(e) && entries_fit_scalars(e@, f),
    ensures
        items_fit(final(items)@, rows.push(f)),
{
    items.push(v);
    assert forall|i: int| 0 <= i < rows.len() + 1 implies ((#[trigger] items@[i]) matches JsonValue::Object(e)
        && entries_fit_scalars(e@, rows.push(f)[i])) by {
        if i < rows.len() {
            assert(items@[i] == old(items)@[i]);
        }
    }
}

fn tag_value(id: u64, name: &str, color: &str, inbox: bool) -> (res: JsonValue)
    ensures
        res matches JsonValue::Object(e) && entries_fit_scalars(e@, tag_fields(id, name@, color@, inbox)),
{
    let ghost mut f: Fields = Seq::empty();
    let mut e: Vec<(String, JsonValue)> = Vec::new();
    push_entry(&mut e, "id", json_number(id), Ghost(f), Ghost(FieldSpec::Number(id)));
    proof { f = f.push(("id"@, FieldSpec::Number(id))); }
    push_entry(&mut e, "name", json_text(name), Ghost(f), Ghost(FieldSpec::Text(name@)));
    proof { f = f.push(("name"@, FieldSpec::Text(name@))); }
    push_entry(&mut e, "color", json_text(color), Ghost(f), Ghost(FieldSpec::Text(color@)));
    proof { f = f.push(("color"@, FieldSpec::Text(color@))); }
    push_entry(&mut e, "is_inbox_tag", JsonValue::Bool(inbox), Ghost(f), Ghost(FieldSpec::Flag(inbox)));
    proof { f = f.push(("is_inbox_tag"@, FieldSpec::Flag(inbox))); }
    assert(f =~= tag_fields(id, name@, color@, inbox));
    row_object(e, Ghost(f))
}

fn matcher_value(id: u64, name: &str, pattern: &str) -> (res: JsonValue)
    ensures
        res matches JsonValue::Object(e) && entries_fit_scalars(e@, matcher_fields(id, name@, pattern@)),
{
    let ghost mut f: Fields = Seq::empty();
    let mut e: Vec<(String, JsonValue)> = Vec::new();
    push_entry(&mut e, "id", json_number(id), Ghost(f), Ghost(FieldSpec::Number(id)));
    proof { f = f.push(("id"@, FieldSpec::Number(id))); }
    push_entry(&mut e, "name", json_text(name), Ghost(f), Ghost(FieldSpec::Text(name@)));
    proof { f = f.push(("name"@, FieldSpec::Text(name@))); }
    push_entry(&mut e, "match", json_text(pattern), Ghost(f), Ghost(FieldSpec::Text(pattern@)));
    proof { f = f.push(("match"@, FieldSpec::Text(pattern@))); }
    push_entry(&mut e, "matching_algorithm", json_number(0), Ghost(f), Ghost(FieldSpec::Number(0)));
    proof { f = f.push(("matching_algorithm"@, FieldSpec::Number(0))); }
    assert(f =~= matcher_fields(id, name@, pattern@));
    row_object(e, Ghost(f))
}

fn task_value(id: u64, status: &str, file_name: &str, result: &str) -> (res: JsonValue)
    ensures
        res matches JsonValue::Object(e) && entries_fit_scalars(
            e@,
            task_fields(id, status@, file_name@, result@),
        ),
{
    let ghost mut f: Fields = Seq::empty();
    let mut e: Vec<(String, JsonValue)> = Vec::new();
    push_entry(&mut e, "id", json_number(id), Ghost(f), Ghost(FieldSpec::Number(id)));
    proof { f = f.push(("id"@, FieldSpec::Number(id))); }
    push_entry(&mut e, "status", json_text(status), Ghost(f), Ghost(FieldSpec::Text(status@)));
    proof { f = f.push(("status"@, FieldSpec::Text(status@))); }
    push_entry(&mut e, "task_file_name", json_text(file_name), Ghost(f), Ghost(FieldSpec::Text(file_name@)));
    proof { f = f.push(("task_file_name"@, FieldSpec::Text(file_name@))); }
    push_entry(&mut e, "type", json_text("consume_file"), Ghost(f), Ghost(FieldSpec::Text("consume_file"@)));
    proof { f = f.push(("type"@, FieldSpec::Text("consume_file"@))); }
    push_entry(&mut e, "result", json_text(result), Ghost(f), Ghost(FieldSpec::Text(result@)));
    proof { f = f.push(("result"@, FieldSpec::Text(result@))); }
    assert(f =~= task_fields(id, status@, file_name@, result@));
    row_object(e, Ghost(f))
}

/// The documents of the demo library, as JSON objects.
pub fn demo_documents() -> (res: Vec<JsonValue>)
    ensures
        items_fit(res@, document_rows()),
{
    let ghost mut rows: Seq<Fields> = Seq::empty();
    let mut items: Vec<JsonValue> = Vec::new();
    let ghost t = demo_document_table();
    let v = document_value(
        301,
        "Quarterly Tax Summary Q1 2026",
        "2026-04-02",
        "Quarterly tax summary for the period ending March 2026.\nRevenue: £84,210.13\nTax due: £6,418.22",
        "quarterly-tax-summary-q1-2026.pdf",
        3,
        &[22, 59],
        11,
        7,
    );
    push_row(&mut items, v, Ghost(rows), Ghost(document_fields(t[0])));
    proof { rows = rows.push(document_fields(t[0])); }
    let v = document_value(
        302,
        "Consulting Invoice March 2026",
        "2026-03-26",
        "Invoice for March consulting services.\nAmount due: £12,500.00\nDue date: 2026-04-10",
        "consulting-invoice-2026-03.pdf",
        1,
        &[22],
        12,
        8,
    );
    push_row(&mut items, v, Ghost(rows), Ghost(document_fields(t[1])));
    proof { rows = rows.push(document_fields(t[1])); }
    let v = document_value(
        303,
        "Project Delivery Invoice 25-26-010",
        "2026-04-10",
        "Invoice REF-25-26-010\nProject delivery and advisory services.\nTotal: £7,840.00",
        "project-delivery-invoice-25-26-010.pdf",
        2,
        &[60, 22],
        13,
        8,
    );
    push_row(&mut items, v, Ghost(rows), Ghost(document_fields(t[2])));
    proof { rows = rows.push(document_fields(t[2])); }
    let v = document_value(
        304,
        "Business Account Statement April 2026",
        "2026-04-14",
        "Opening balance £18,902.14\nClosing balance £24,411.91\n22 transactions recorded.",
        "business-account-statement-april-2026.pdf",
        5,
        &[61],
        14,
        9,
    );
    push_row(&mut items, v, Ghost(rows), Ghost(document_fields(t[3])));
    proof { rows = rows.push(document_fields(t[3])); }
    let v = document_value(
        305,
        "Equipment Purchase Receipt",
        "2026-02-18",
        "Receipt for office equipment purchase.\nVendor: Hardware Supplier Ltd\nTotal paid: £2,149.00",
        "equipment-purchase-receipt.pdf",
        1,
        &[59],
        15,
        10,
    );
    push_row(&mut items, v, Ghost(rows), Ghost(document_fields(t[4])));
    proof { rows = rows.push(document_fields(t[4])); }
    let v = document_value(
        306,
        "Office Rent Invoice April 2026",
        "2026-04-01",
        "Monthly office rent invoice.\nPeriod: April 2026\nAmount: £1,250.00",
        "office-rent-invoice-april-2026.pdf",
        1,
        &[22, 61],
        16,
        8,
    );
    push_row(&mut items, v, Ghost(rows), Ghost(document_fields(t[5])));
    proof { rows = rows.push(document_fields(t[5])); }
    assert(rows =~= document_rows());
    items
}

/// The tags of the demo library, as JSON objects.
pub fn demo_tags() -> (res: Vec<JsonValue>)
    ensures
        items_fit(res@, tag_rows()),
{
    let ghost mut rows: Seq<Fields> = Seq::empty();
    let mut items: Vec<JsonValue> = Vec::new();
    push_row(&mut items, tag_value(22, "finance", "#38bdf8", false), Ghost(rows), Ghost(tag_rows()[0]));
    proof { rows = rows.push(tag_rows()[0]); }
    push_row(&mut items, tag_value(59, "tax", "#f59e0b", false), Ghost(rows), Ghost(tag_rows()[1]));
    proof { rows = rows.push(tag_rows()[1]); }
    push_row(&mut items, tag_value(60, "TODO", "#f97316", true), Ghost(rows), Ghost(tag_rows()[2]));
    proof { rows = rows.push(tag_rows()[2]); }
    push_row(&mut items, tag_value(61, "banking", "#10b981", false), Ghost(rows), Ghost(tag_rows()[3]));
    proof { rows = rows.push(tag_rows()[3]); }
    assert(rows =~= tag_rows());
    items
}

/// The correspondents of the demo library, as JSON objects.
pub fn demo_correspondents() -> (res: Vec<JsonValue>)
    ensures
        items_fit(res@, correspondent_rows()),
{
    let ghost mut rows: Seq<Fields> = Seq::empty();
    let ghost t = correspondent_rows();
    let mut items: Vec<JsonValue> = Vec::new();
    push_row(&mut items, matcher_value(11, "Revenue Authority", "tax summary"), Ghost(rows), Ghost(t[0]));
    proof { rows = rows.push(t[0]); }
    push_row(&mut items, matcher_value(12, "Consulting Client Ltd", "consulting invoice"), Ghost(rows), Ghost(t[1]));
    proof { rows = rows.push(t[1]); }
    push_row(&mut items, matcher_value(13, "Project Customer Ltd", "project delivery"), Ghost(rows), Ghost(t[2]));
    proof { rows = rows.push(t[2]); }
    push_row(&mut items, matcher_value(14, "Business Bank", "account statement"), Ghost(rows), Ghost(t[3]));
    proof { rows = rows.push(t[3]); }
    push_row(&mut items, matcher_value(15, "Hardware Supplier Ltd", "equipment purchase"), Ghost(rows), Ghost(t[4]));
    proof { rows = rows.push(t[4]); }
    push_row(&mut items, matcher_value(16, "Office Landlord Ltd", "office rent"), Ghost(rows), Ghost(t[5]));
    proof { rows = rows.push(t[5]); }
    assert(rows =~= t);
    items
}

/// The document types of the demo library, as JSON objects.
pub fn demo_document_types() -> (res: Vec<JsonValue>)
    ensures
        items_fit(res@, document_type_rows()),
{
    let ghost mut rows: Seq<Fields> = Seq::empty();
    let ghost t = document_type_rows();
    let mut items: Vec<JsonValue> = Vec::new();
    push_row(&mut items, matcher_value(7, "tax", "vat return"), Ghost(rows), Ghost(t[0]));
    proof { rows = rows.push(t[0]); }
    push_row(&mut items, matcher_value(8, "invoice", "invoice"), Ghost(rows), Ghost(t[1]));
    proof { rows = rows.push(t[1]); }
    push_row(&mut items, matcher_value(9, "statement", "statement"), Ghost(rows), Ghost(t[2]));
    proof { rows = rows.push(t[2]); }
    push_row(&mut items, matcher_value(10, "receipt", "receipt"), Ghost(rows), Ghost(t[3]));
    proof { rows = rows.push(t[3]); }
    assert(rows =~= t);
    items
}

/// The tasks of the demo library, as JSON objects.
pub fn demo_tasks() -> (res: Vec<JsonValue>)
    ensures
        items_fit(res@, task_rows()),
{
    let ghost mut rows: Seq<Fields> = Seq::empty();
    let ghost t = task_rows();
    let mut items: Vec<JsonValue> = Vec::new();
    push_row(
        &mut items,
        task_value(901, "SUCCESS", "project-delivery-invoice-25-26-010.pdf", "Imported into demo library"),
        Ghost(rows),
        Ghost(t[0]),
    );
    proof { rows = rows.push(t[0]); }
    push_row(&mut items, task_value(902, "PENDING", "workspace-rent-april-2026.pdf", ""), Ghost(rows), Ghost(t[1]));
    proof { rows = rows.push(t[1]); }
    assert(rows =~= t);
    items
}


// ---------------------------------------------------------------------------
// Finding an item by its identifier
// ---------------------------------------------------------------------------

/// `item.get("id").and_then(Value::as_u64)`.
pub open spec fn item_id(v: JsonValue) -> Option<u64> {
    json_u64(json_get(v, "id"@))
}

/// The position of the first item with the given identifier.
pub open spec fn first_with_id(items: Seq<JsonValue>, id: u64) -> Option<int>
    decreases items.len(),
{
    if items.len() == 0 {
        None
    } else if item_id(items[0]) == Some(id) {
        Some(0)
    } else {
        match first_with_id(items.drop_first(), id) {
            Some(k) => Some(k + 1),
            None => None,
        }
    }
}

/// The identifier of a row: its first field, `id`, a number.
pub open spec fn row_id(f: Fields) -> Option<u64> {
    if f.len() > 0 && f[0].0 == "id"@ {
        match f[0].1 {
            FieldSpec::Number(n) => Some(n),
            _ => None,
        }
    } else {
        None
    }
}

/// The position of the first row with the given identifier.
pub open spec fn first_row(rows: Seq<Fields>, id: u64) -> Option<int>
    decreases rows.len(),
{
    if rows.len() == 0 {
        None
    } else if row_id(rows[0]) == Some(id) {
        Some(0)
    } else {
        match first_row(rows.drop_first(), id) {
            Some(k) => Some(k + 1),
            None => None,
        }
    }
}

/// The first row with the identifier of row `k` is row `k` when no earlier
/// row has that identifier.
pub proof fn lemma_first_row_at(rows: Seq<Fields>, k: int)
    requires
        0 <= k < rows.len(),
        row_id(rows[k]) is Some,
        forall|j: int| 0 <= j < k ==> row_id(#[trigger] rows[j]) != row_id(rows[k]),
    ensures
        first_row(rows, row_id(rows[k])->0) == Some(k),
    decreases k,
{
    if k > 0 {
        let rest = rows.drop_first();
        assert(rest[k - 1] == rows[k]);
        assert forall|j: int| 0 <= j < k - 1 implies row_id(#[trigger] rest[j]) != row_id(rest[k - 1]) by {
            assert(rest[j] == rows[j + 1]);
        }
        assert(row_id(rows[0]) != row_id(rows[k]));
        lemma_first_row_at(rest, k - 1);
    }
}

/// Every row starts with its identifier.
pub open spec fn rows_have_ids(rows: Seq<Fields>) -> bool {
    forall|k: int| 0 <= k < rows.len() ==> #[trigger] row_id(rows[k]) is Some
}

/// An object fitting a row with an identifier has that identifier.
pub proof fn lemma_item_id(v: JsonValue, f: Fields)
    requires
        v matches JsonValue::Object(e) && entries_fit_scalars(e@, f),
        row_id(f) is Some,
    ensures
        item_id(v) == row_id(f),
{
    if let JsonValue::Object(e) = v {
        assert(e@[0].0@ == f[0].0);
    }
}

/// Among items that fit rows with identifiers, the first item with an
/// identifier is at the first row with it.
pub proof fn lemma_first_with_id(items: Seq<JsonValue>, rows: Seq<Fields>, id: u64)
    requires
        items_fit(items, rows),
        rows_have_ids(rows),
    ensures
        first_with_id(items, id) == first_row(rows, id),
    decreases items.len(),
{
    if items.len() > 0 {
        assert(row_id(rows[0]) is Some);
        lemma_item_id(items[0], rows[0]);
        let rest = items.drop_first();
        let rrest = rows.drop_first();
        assert forall|i: int| 0 <= i < rrest.len() implies ((#[trigger] rest[i]) matches JsonValue::Object(e)
            && entries_fit_scalars(e@, rrest[i])) by {
            assert(rest[i] == items[i + 1]);
            assert(rrest[i] == rows[i + 1]);
        }
        assert forall|k: int| 0 <= k < rrest.len() implies #[trigger] row_id(rrest[k]) is Some by {
            assert(rrest[k] == rows[k + 1]);
        }
        lemma_first_with_id(rest, rrest, id);
    }
}

/// The first item with an identifier is an item with it.
pub proof fn lemma_first_with_id_bounds(items: Seq<JsonValue>, id: u64)
    ensures
        match first_with_id(items, id) {
            Some(k) => 0 <= k < items.len() && item_id(items[k]) == Some(id),
            None => forall|k: int| 0 <= k < items.len() ==> item_id(#[trigger] items[k]) != Some(id),
        },
    decreases items.len(),
{
    if items.len() > 0 {
        lemma_first_with_id_bounds(items.drop_first(), id);
        assert forall|k: int| 0 < k < items.len() implies #[trigger] items[k] == items.drop_first()[k - 1] by {}
    }
}

/// The position of the first item with the given identifier.
pub fn position_of_id(items: &[JsonValue], id: u64) -> (res: Option<usize>)
    ensures
        match res {
            Some(k) => first_with_id(items@, id) == Some(k as int),
            None => first_with_id(items@, id) is None,
        },
{
    let ghost all = items@;
    let mut i: usize = 0;
    assert(all.skip(0) =~= all);
    while i < items.len()
        invariant
            items@ == all,
            i <= all.len(),
            match first_with_id(all, id) {
                Some(k) => match first_with_id(all.skip(i as int), id) {
                    Some(j) => k == j + i,
                    None => false,
                },
                None => first_with_id(all.skip(i as int), id) is None,
            },
        decreases all.len() - i,
    {
        let ghost rest = all.skip(i as int);
        assert(rest[0] == all[i as int]);
        assert(rest.drop_first() =~= all.skip(i + 1));
        let found: bool = match items[i].get("id") {
            Some(v) => match v.as_u64() {
                Some(n) => n == id,
                None => false,
            },
            None => false,
        };
        if found {
            assert(first_with_id(rest, id) == Some(0int));
            return Some(i);
        }
        i = i + 1;
    }
    assert(all.skip(i as int).len() == 0);
    None
}

/// The first item with the given identifier, taken out of the list.
pub fn find_by_id(items: Vec<JsonValue>, id: u64) -> (res: Option<JsonValue>)
    ensures
        match first_with_id(items@, id) {
            Some(k) => res == Some(items@[k]),
            None => res is None,
        },
{
    proof {
        lemma_first_with_id_bounds(items@, id);
    }
    let mut list = items;
    match position_of_id(list.as_slice(), id) {
        Some(k) => Some(list.remove(k)),
        None => None,
    }
}

/// Every row holds scalar fields only.
pub open spec fn rows_scalar(rows: Seq<Fields>) -> bool {
    forall|k: int| 0 <= k < rows.len() ==> #[trigger] scalar_row(rows[k])
}

/// The rows of each demo table start with their identifiers and hold
/// scalar fields only.
pub proof fn lemma_demo_rows()
    ensures
        rows_have_ids(document_rows()),
        rows_have_ids(tag_rows()),
        rows_have_ids(correspondent_rows()),
        rows_have_ids(document_type_rows()),
        rows_have_ids(task_rows()),
        rows_scalar(document_rows()),
        rows_scalar(tag_rows()),
        rows_scalar(correspondent_rows()),
        rows_scalar(document_type_rows()),
        rows_scalar(task_rows()),
        document_rows().len() == 6,
        tag_rows().len() == 4,
        correspondent_rows().len() == 6,
        document_type_rows().len() == 4,
        task_rows().len() == 2,
{
    assert forall|k: int| 0 <= k < document_rows().len() implies #[trigger] row_id(document_rows()[k]) is Some by {
        assert(document_rows()[k] == document_fields(demo_document_table()[k]));
    }
    assert forall|k: int| 0 <= k < document_rows().len() implies #[trigger] scalar_row(document_rows()[k]) by {
        assert(document_rows()[k] == document_fields(demo_document_table()[k]));
    }
    assert forall|k: int| 0 <= k < tag_rows().len() implies #[trigger] scalar_row(tag_rows()[k]) by {
        let f = tag_rows()[k];
        assert forall|i: int| 0 <= i < f.len() implies is_scalar_spec((#[trigger] f[i]).1) by {}
    }
    assert forall|k: int| 0 <= k < correspondent_rows().len() implies #[trigger] scalar_row(correspondent_rows()[k]) by {
        let f = correspondent_rows()[k];
        assert forall|i: int| 0 <= i < f.len() implies is_scalar_spec((#[trigger] f[i]).1) by {}
    }
    assert forall|k: int| 0 <= k < document_type_rows().len() implies #[trigger] scalar_row(document_type_rows()[k]) by {
        let f = document_type_rows()[k];
        assert forall|i: int| 0 <= i < f.len() implies is_scalar_spec((#[trigger] f[i]).1) by {}
    }
    assert forall|k: int| 0 <= k < task_rows().len() implies #[trigger] scalar_row(task_rows()[k]) by {
        let f = task_rows()[k];
        assert forall|i: int| 0 <= i < f.len() implies is_scalar_spec((#[trigger] f[i]).1) by {}
    }
}

/// Some row of the table has the identifier.
pub open spec fn has_row_id(rows: Seq<Fields>, id: u64) -> bool {
    exists|r: int| 0 <= r < rows.len() && #[trigger] row_id(rows[r]) == Some(id)
}

/// The demo library is closed under its references: every tag of every
/// demo document is a demo tag, and its correspondent and document type are
/// a demo correspondent and a demo document type.
pub proof fn law_demo_documents_refer_to_rows()
    ensures
        forall|k: int|
            0 <= k < document_rows().len() ==> #[trigger] document_rows()[k] == document_fields(
                demo_document_table()[k],
            ),
        forall|k: int, j: int|
            0 <= k < demo_document_table().len() && 0 <= j < demo_document_table()[k].tags.len()
                ==> has_row_id(tag_rows(), #[trigger] demo_document_table()[k].tags[j]),
        forall|k: int|
            0 <= k < demo_document_table().len() ==> has_row_id(
                correspondent_rows(),
                (#[trigger] demo_document_table()[k]).correspondent,
            ) && has_row_id(document_type_rows(), demo_document_table()[k].document_type),
{
    let t = demo_document_table();
    let tags = tag_rows();
    let cs = correspondent_rows();
    let ds = document_type_rows();
    assert(row_id(tags[0]) == Some(22u64));
    assert(row_id(tags[1]) == Some(59u64));
    assert(row_id(tags[2]) == Some(60u64));
    assert(row_id(tags[3]) == Some(61u64));
    assert(row_id(cs[0]) == Some(11u64));
    assert(row_id(cs[1]) == Some(12u64));
    assert(row_id(cs[2]) == Some(13u64));
    assert(row_id(cs[3]) == Some(14u64));
    assert(row_id(cs[4]) == Some(15u64));
    assert(row_id(cs[5]) == Some(16u64));
    assert(row_id(ds[0]) == Some(7u64));
    assert(row_id(ds[1]) == Some(8u64));
    assert(row_id(ds[2]) == Some(9u64));
    assert(row_id(ds[3]) == Some(10u64));
    assert forall|k: int, j: int| 0 <= k < t.len() && 0 <= j < t[k].tags.len() implies has_row_id(
        tags,
        #[trigger] t[k].tags[j],
    ) by {
        let v = t[k].tags[j];
        assert(v == 22 || v == 59 || v == 60 || v == 61);
    }
    assert forall|k: int| 0 <= k < t.len() implies has_row_id(cs, (#[trigger] t[k]).correspondent)
        && has_row_id(ds, t[k].document_type) by {
        assert(11 <= t[k].correspondent <= 16);
        assert(7 <= t[k].document_type <= 10);
    }
}

/// Items fitting rows fit them on any range.
pub proof fn lemma_items_fit_subrange(items: Seq<JsonValue>, rows: Seq<Fields>, a: int, b: int)
    requires
        items_fit(items, rows),
        0 <= a <= b <= items.len(),
    ensures
        items_fit(items.subrange(a, b), rows.subrange(a, b)),
{
    assert forall|i: int| 0 <= i < b - a implies ((#[trigger] items.subrange(a, b)[i]) matches JsonValue::Object(e)
        && entries_fit_scalars(e@, rows.subrange(a, b)[i])) by {
        assert(items.subrange(a, b)[i] == items[a + i]);
    }
}


// ---------------------------------------------------------------------------
// Reading the text of a field
// ---------------------------------------------------------------------------

/// The spec of the first field with the given key.
pub open spec fn field_get(f: Fields, key: Seq<char>) -> Option<FieldSpec>
    decreases f.len(),
{
    if f.len() == 0 {
        None
    } else if f[0].0 == key {
        Some(f[0].1)
    } else {
        field_get(f.drop_first(), key)
    }
}

/// The text that a value fitting a field spec holds, if it is a string.
pub open spec fn spec_text(fs: FieldSpec) -> Option<Seq<char>> {
    match fs {
        FieldSpec::Text(t) => Some(t),
        FieldSpec::OptText(t) => t,
        FieldSpec::Same(w) => json_str(Some(w)),
        FieldSpec::Exactly(w) => json_str(Some(w)),
        _ => None,
    }
}

/// `item.get(key).and_then(Value::as_str)`.
pub open spec fn item_text(v: JsonValue, key: Seq<char>) -> Option<Seq<char>> {
    json_str(json_get(v, key))
}

/// The text of the field with the given key in a row, if it holds one.
pub open spec fn row_text(f: Fields, key: Seq<char>) -> Option<Seq<char>> {
    match field_get(f, key) {
        Some(fs) => spec_text(fs),
        None => None,
    }
}

proof fn lemma_scalar_text(x: JsonValue, fs: FieldSpec)
    requires
        scalar_fits(x, fs),
    ensures
        json_str(Some(x)) == spec_text(fs),
{
    match fs {
        FieldSpec::Same(w) => {
            match w {
                JsonValue::String(s) => {},
                JsonValue::Array(a) => {},
                JsonValue::Object(o) => {},
                JsonValue::Number(n) => {},
                _ => {},
            }
        },
        _ => {},
    }
}

proof fn lemma_entries_text(e: Seq<(String, JsonValue)>, f: Fields, key: Seq<char>)
    requires
        entries_fit_scalars(e, f),
    ensures
        json_str(entries_get(e, key)) == row_text(f, key),
    decreases f.len(),
{
    if f.len() > 0 {
        assert(e[0].0@ == f[0].0);
        if f[0].0 == key {
            lemma_scalar_text(e[0].1, f[0].1);
        } else {
            let e1 = e.drop_first();
            let f1 = f.drop_first();
            assert forall|i: int| 0 <= i < f1.len() implies (#[trigger] e1[i]).0@ == f1[i].0
                && scalar_fits(e1[i].1, f1[i].1) by {
                assert(e1[i] == e[i + 1]);
                assert(f1[i] == f[i + 1]);
            }
            lemma_entries_text(e1, f1, key);
        }
    }
}

/// A value fitting a row holds the row's text under each key.
pub proof fn lemma_item_text(v: JsonValue, f: Fields, key: Seq<char>)
    requires
        v matches JsonValue::Object(e) && entries_fit_scalars(e@, f),
    ensures
        item_text(v, key) == row_text(f, key),
{
    if let JsonValue::Object(e) = v {
        lemma_entries_text(e@, f, key);
    }
}

// ---------------------------------------------------------------------------
// Searching
// ---------------------------------------------------------------------------

/// Lower-cased text contains the search term.
pub open spec fn text_matches(text: Option<Seq<char>>, search: Seq<char>) -> bool {
    match text {
        Some(t) => contains_seq(ascii_lowercase(t), search),
        None => contains_seq(Seq::empty(), search),
    }
}

/// A document matches a lower-case search term when the term is empty or
/// its title, content or original file name holds it, in any case.
pub open spec fn document_matches(v: JsonValue, search: Seq<char>) -> bool {
    ||| search.len() == 0
    ||| text_matches(item_text(v, "title"@), search)
    ||| text_matches(item_text(v, "content"@), search)
    ||| text_matches(item_text(v, "original_file_name"@), search)
}

/// The same test on a row.
pub open spec fn row_matches_document(f: Fields, search: Seq<char>) -> bool {
    ||| search.len() == 0
    ||| text_matches(row_text(f, "title"@), search)
    ||| text_matches(row_text(f, "content"@), search)
    ||| text_matches(row_text(f, "original_file_name"@), search)
}

/// Lower-cased text, where there is text, contains the search term.
pub open spec fn present_text_matches(text: Option<Seq<char>>, search: Seq<char>) -> bool {
    match text {
        Some(t) => contains_seq(ascii_lowercase(t), search),
        None => false,
    }
}

/// A tag, correspondent or document type matches a lower-case search term
/// when its name or its match pattern holds it, in any case.
pub open spec fn named_item_matches(v: JsonValue, search: Seq<char>) -> bool {
    present_text_matches(item_text(v, "name"@), search) || present_text_matches(
        item_text(v, "match"@),
        search,
    )
}

/// The same test on a row.
pub open spec fn row_matches_name(f: Fields, search: Seq<char>) -> bool {
    present_text_matches(row_text(f, "name"@), search) || present_text_matches(
        row_text(f, "match"@),
        search,
    )
}

pub open spec fn document_filter(search: Seq<char>) -> spec_fn(JsonValue) -> bool {
    |v: JsonValue| document_matches(v, search)
}

pub open spec fn document_row_filter(search: Seq<char>) -> spec_fn(Fields) -> bool {
    |f: Fields| row_matches_document(f, search)
}

pub open spec fn name_filter(search: Seq<char>) -> spec_fn(JsonValue) -> bool {
    |v: JsonValue| named_item_matches(v, search)
}

pub open spec fn name_row_filter(search: Seq<char>) -> spec_fn(Fields) -> bool {
    |f: Fields| row_matches_name(f, search)
}

/// Filtering items that fit rows, by tests that agree on each item and its
/// row, gives items that fit the filtered rows.
pub proof fn lemma_filter_fit(
    items: Seq<JsonValue>,
    rows: Seq<Fields>,
    pv: spec_fn(JsonValue) -> bool,
    pr: spec_fn(Fields) -> bool,
)
    requires
        items_fit(items, rows),
        forall|i: int| 0 <= i < items.len() ==> pv(#[trigger] items[i]) == pr(rows[i]),
    ensures
        items_fit(items.filter(pv), rows.filter(pr)),
    decreases items.len(),
{
    reveal(Seq::filter);
    if items.len() > 0 {
        let i0 = items.drop_last();
        let r0 = rows.drop_last();
        assert forall|i: int| 0 <= i < r0.len() implies ((#[trigger] i0[i]) matches JsonValue::Object(e)
            && entries_fit_scalars(e@, r0[i])) by {
            assert(i0[i] == items[i]);
            assert(r0[i] == rows[i]);
        }
        assert forall|i: int| 0 <= i < i0.len() implies pv(#[trigger] i0[i]) == pr(r0[i]) by {
            assert(i0[i] == items[i]);
            assert(r0[i] == rows[i]);
        }
        lemma_filter_fit(i0, r0, pv, pr);
        let fi = i0.filter(pv);
        let fr = r0.filter(pr);
        assert(pv(items[items.len() - 1]) == pr(rows[rows.len() - 1]));
        if pv(items.last()) {
            assert forall|i: int| 0 <= i < fr.len() + 1 implies ((#[trigger] fi.push(items.last())[i]) matches JsonValue::Object(e)
                && entries_fit_scalars(e@, fr.push(rows.last())[i])) by {
                if i < fr.len() {
                    assert(fi.push(items.last())[i] == fi[i]);
                }
            }
        }
    }
}

/// Documents fitting the document rows match a search exactly when their
/// rows do.
pub proof fn lemma_document_filter(items: Seq<JsonValue>, rows: Seq<Fields>, search: Seq<char>)
    requires
        items_fit(items, rows),
    ensures
        items_fit(items.filter(document_filter(search)), rows.filter(document_row_filter(search))),
{
    assert forall|i: int| 0 <= i < items.len() implies document_filter(search)(#[trigger] items[i])
        == document_row_filter(search)(rows[i]) by {
        lemma_item_text(items[i], rows[i], "title"@);
        lemma_item_text(items[i], rows[i], "content"@);
        lemma_item_text(items[i], rows[i], "original_file_name"@);
    }
    lemma_filter_fit(items, rows, document_filter(search), document_row_filter(search));
}

/// Items fitting rows match a search by name exactly when their rows do.
pub proof fn lemma_name_filter(items: Seq<JsonValue>, rows: Seq<Fields>, search: Seq<char>)
    requires
        items_fit(items, rows),
    ensures
        items_fit(items.filter(name_filter(search)), rows.filter(name_row_filter(search))),
{
    assert forall|i: int| 0 <= i < items.len() implies name_filter(search)(#[trigger] items[i])
        == name_row_filter(search)(rows[i]) by {
        lemma_item_text(items[i], rows[i], "name"@);
        lemma_item_text(items[i], rows[i], "match"@);
    }
    lemma_filter_fit(items, rows, name_filter(search), name_row_filter(search));
}

pub fn text_of_field(v: &JsonValue, key: &str) -> (res: Option<Vec<char>>)
    ensures
        match res {
            Some(t) => item_text(*v, key@) == Some(t@),
            None => item_text(*v, key@) is None,
        },
{
    match v.get(key) {
        Some(x) => match x.as_str() {
            Some(s) => Some(chars_of(s)),
            None => None,
        },
        None => None,
    }
}

fn field_matches(v: &JsonValue, key: &str, search: &[char]) -> (res: bool)
    ensures
        res == text_matches(item_text(*v, key@), search@),
{
    match text_of_field(v, key) {
        Some(t) => {
            let lower = to_ascii_lowercase(t.as_slice());
            contains_chars(lower.as_slice(), search)
        },
        None => {
            let empty: Vec<char> = Vec::new();
            assert(empty@ =~= Seq::<char>::empty());
            contains_chars(empty.as_slice(), search)
        },
    }
}

fn present_field_matches(v: &JsonValue, key: &str, search: &[char]) -> (res: bool)
    ensures
        res == present_text_matches(item_text(*v, key@), search@),
{
    match text_of_field(v, key) {
        Some(t) => {
            let lower = to_ascii_lowercase(t.as_slice());
            contains_chars(lower.as_slice(), search)
        },
        None => false,
    }
}

/// Whether a document matches a lower-case search term.
pub fn matches_query(document: &JsonValue, search: &[char]) -> (res: bool)
    ensures
        res == document_matches(*document, search@),
{
    if search.len() == 0 {
        return true;
    }
    field_matches(document, "title", search) || field_matches(document, "content", search)
        || field_matches(document, "original_file_name", search)
}

/// Whether a tag, correspondent or document type matches a lower-case
/// search term.
pub fn matches_name(item: &JsonValue, search: &[char]) -> (res: bool)
    ensures
        res == named_item_matches(*item, search@),
{
    present_field_matches(item, "name", search) || present_field_matches(item, "match", search)
}

/// The documents that match a lower-case search term, in order.
pub fn filter_documents(items: Vec<JsonValue>, search: &[char]) -> (res: Vec<JsonValue>)
    ensures
        res@ == items@.filter(document_filter(search@)),
{
    let ghost all = items@;
    let mut rest = items;
    let mut out: Vec<JsonValue> = Vec::new();
    let mut n: usize = 0;
    assert(all.take(0) =~= Seq::<JsonValue>::empty());
    assert(all.len() == rest.len());
    assert(all.skip(0) =~= all);
    reveal(Seq::filter);
    while rest.len() > 0
        invariant
            n + rest@.len() == all.len(),
            all.len() <= usize::MAX,
            rest@ == all.skip(n as int),
            out@ == all.take(n as int).filter(document_filter(search@)),
        decreases rest@.len(),
    {
        let item = rest.remove(0);
        assert(item == all[n as int]);
        assert(all.take(n + 1) =~= all.take(n as int).push(item));
        proof {
            all.take(n as int).lemma_filter_push(item, document_filter(search@));
        }
        if matches_query(&item, search) {
            out.push(item);
        }
        assert(rest@ =~= all.skip(n + 1));
        n = n + 1;
    }
    assert(all.take(n as int) =~= all);
    out
}

/// The tags, correspondents or document types that match a lower-case
/// search term, in order.
pub fn matching_named_items(items: Vec<JsonValue>, search: &[char]) -> (res: Vec<JsonValue>)
    ensures
        res@ == items@.filter(name_filter(search@)),
{
    let ghost all = items@;
    let mut rest = items;
    let mut out: Vec<JsonValue> = Vec::new();
    let mut n: usize = 0;
    assert(all.take(0) =~= Seq::<JsonValue>::empty());
    assert(all.len() == rest.len());
    assert(all.skip(0) =~= all);
    reveal(Seq::filter);
    while rest.len() > 0
        invariant
            n + rest@.len() == all.len(),
            all.len() <= usize::MAX,
            rest@ == all.skip(n as int),
            out@ == all.take(n as int).filter(name_filter(search@)),
        decreases rest@.len(),
    {
        let item = rest.remove(0);
        assert(item == all[n as int]);
        assert(all.take(n + 1) =~= all.take(n as int).push(item));
        proof {
            all.take(n as int).lemma_filter_push(item, name_filter(search@));
        }
        if matches_name(&item, search) {
            out.push(item);
        }
        assert(rest@ =~= all.skip(n + 1));
        n = n + 1;
    }
    assert(all.take(n as int) =~= all);
    out
}


// ---------------------------------------------------------------------------
// Title suggestions
// ---------------------------------------------------------------------------

/// The titles of the rows, in order, whose lower-cased title holds the
/// lower-case term.
pub open spec fn title_suggestions(rows: Seq<Fields>, term: Seq<char>) -> Seq<Seq<char>>
    decreases rows.len(),
{
    if rows.len() == 0 {
        Seq::empty()
    } else {
        let init = title_suggestions(rows.drop_last(), term);
        match row_text(rows.last(), "title"@) {
            Some(t) => if contains_seq(ascii_lowercase(t), term) {
                init.push(t)
            } else {
                init
            },
            None => init,
        }
    }
}

/// The same list read from JSON items.
pub open spec fn item_titles(items: Seq<JsonValue>, term: Seq<char>) -> Seq<Seq<char>>
    decreases items.len(),
{
    if items.len() == 0 {
        Seq::empty()
    } else {
        let init = item_titles(items.drop_last(), term);
        match item_text(items.last(), "title"@) {
            Some(t) => if contains_seq(ascii_lowercase(t), term) {
                init.push(t)
            } else {
                init
            },
            None => init,
        }
    }
}

pub proof fn lemma_item_titles(items: Seq<JsonValue>, rows: Seq<Fields>, term: Seq<char>)
    requires
        items_fit(items, rows),
    ensures
        item_titles(items, term) == title_suggestions(rows, term),
    decreases items.len(),
{
    if items.len() > 0 {
        let i0 = items.drop_last();
        let r0 = rows.drop_last();
        assert forall|i: int| 0 <= i < r0.len() implies ((#[trigger] i0[i]) matches JsonValue::Object(e)
            && entries_fit_scalars(e@, r0[i])) by {
            assert(i0[i] == items[i]);
            assert(r0[i] == rows[i]);
        }
        lemma_item_titles(i0, r0, term);
        lemma_item_text(items.last(), rows.last(), "title"@);
    }
}

/// The titles of the documents whose lower-cased title holds the
/// lower-case term, as JSON strings, in order.
pub fn matching_titles(items: &Vec<JsonValue>, term: &[char]) -> (res: Vec<JsonValue>)
    ensures
        res@.len() == item_titles(items@, term@).len(),
        forall|i: int| 0 <= i < res@.len() ==> is_json_string(#[trigger] res@[i], item_titles(items@, term@)[i]),
{
    let mut out: Vec<JsonValue> = Vec::new();
    for n in 0..items.len()
        invariant
            out@.len() == item_titles(items@.take(n as int), term@).len(),
            forall|i: int| 0 <= i < out@.len() ==> is_json_string(#[trigger] out@[i], item_titles(items@.take(n as int), term@)[i]),
    {
        let ghost before = item_titles(items@.take(n as int), term@);
        assert(items@.take(n + 1).drop_last() =~= items@.take(n as int));
        assert(items@.take(n + 1).last() == items@[n as int]);
        match text_of_field(&items[n], "title") {
            Some(t) => {
                let lower = to_ascii_lowercase(t.as_slice());
                if contains_chars(lower.as_slice(), term) {
                    out.push(JsonValue::String(crate::text::string_of(t.as_slice())));
                    assert forall|i: int| 0 <= i < out@.len() implies is_json_string(#[trigger] out@[i], item_titles(items@.take(n + 1), term@)[i]) by {
                        if i < before.len() {
                            assert(item_titles(items@.take(n + 1), term@)[i] == before[i]);
                        }
                    }
                }
            },
            None => {},
        }
    }
    assert(items@.take(items@.len() as int) =~= items@);
    out
}

} // verus!
