use paperless_cli::api::{ApiClient, Endpoint, HttpMethod, RequestData, Transport};
use paperless_cli::demo::{
    demo_url, dispatch_demo_request, empty_response, ok_binary, parse_id, query_value, DemoTransport,
};
use paperless_cli::demo_data::{demo_correspondents, demo_document_types, demo_documents, demo_tags};
use paperless_cli::error::AppError;
use paperless_cli::json::{decode_json, JsonNumber, JsonValue};
use paperless_cli::services::{
    autocomplete_search, bulk_download, bulk_download_zip, create_correspondent, create_tag,
    dashboard, delete_document, delete_tag, download_document, download_preview,
    download_thumbnail, edit_document, get_document, get_document_content,
    get_document_inspector, get_tag, get_task, list_all_document_summaries, list_correspondents,
    list_document_types, list_documents, list_tags, list_tasks, merge_documents,
    operational_overview, ping, query_search, split_document, update_document, update_tag,
    upload_document, DocumentQuery, TagUpdateRequest, UpdateRequest, UploadRequest,
};

fn client() -> ApiClient<DemoTransport> {
    ApiClient::new(DemoTransport::new())
}

fn text(s: &str) -> JsonValue {
    JsonValue::String(s.to_string())
}

fn number(n: u64) -> JsonValue {
    JsonValue::Number(JsonNumber::PosInt(n))
}

fn array_len(value: &JsonValue) -> usize {
    value.as_array().map(|items| items.len()).unwrap_or(usize::MAX)
}

#[test]
fn demo_status_answers() {
    let status = ping(&client(), "https://demo.paperless.local").unwrap();
    assert_eq!(status.get("version"), Some(&text("demo-2026.4")));
    assert_eq!(status.get("demo"), Some(&JsonValue::Bool(true)));
}

#[test]
fn demo_lists() {
    let c = client();
    assert_eq!(array_len(&list_tags(&c).unwrap()), 4);
    assert_eq!(array_len(&list_correspondents(&c).unwrap()), 6);
    assert_eq!(array_len(&list_document_types(&c).unwrap()), 4);
    assert_eq!(array_len(&list_tasks(&c).unwrap()), 2);
}

#[test]
fn demo_items_by_id() {
    let c = client();
    assert_eq!(get_tag(&c, 59).unwrap().get("name"), Some(&text("tax")));
    let document = get_document(&c, 301).unwrap();
    assert_eq!(document.get("title"), Some(&text("Quarterly Tax Summary Q1 2026")));
    assert_eq!(
        document.get("tags"),
        Some(&JsonValue::Array(vec![number(22), number(59)]))
    );
    assert_eq!(get_task(&c, 902).unwrap().get("status"), Some(&text("PENDING")));
}

#[test]
fn demo_unknown_item_is_not_found() {
    match get_document(&client(), 999) {
        Err(AppError::Http { status, url, message }) => {
            assert_eq!(status, 404);
            assert_eq!(url, "https://demo.paperless.local/api/documents/999/");
            assert_eq!(message, "Resource not found.");
        }
        other => panic!("unexpected {other:?}"),
    }
}

#[test]
fn demo_invalid_identifier() {
    match client().get_json("tags/abc/", Vec::new()) {
        Err(AppError::Message(m)) => assert_eq!(m, "Invalid demo identifier: abc"),
        other => panic!("unexpected {other:?}"),
    }
}

#[test]
fn demo_unknown_endpoint() {
    match client().get_json("/widgets/", Vec::new()) {
        Err(AppError::Http { status, url, message }) => {
            assert_eq!(status, 404);
            assert_eq!(url, "https://demo.paperless.local/api/widgets");
            assert_eq!(message, "Demo endpoint not implemented: widgets");
        }
        other => panic!("unexpected {other:?}"),
    }
}

#[test]
fn demo_listing_filters_by_query() {
    let mut query = DocumentQuery::new();
    query.query = Some("INVOICE".to_string());
    let page = list_documents(&client(), &query).unwrap();
    assert_eq!(page.get("count"), Some(&number(3)));
    assert_eq!(page.get("next"), Some(&JsonValue::Null));
    assert_eq!(page.get("previous"), Some(&JsonValue::Null));
    let ids: Vec<u64> = page.get("results").unwrap().as_array().unwrap().iter()
        .map(|d| d.get("id").unwrap().as_u64().unwrap()).collect();
    assert_eq!(ids, vec![302, 303, 306]);
}

#[test]
fn demo_listing_pages() {
    let mut query = DocumentQuery::new();
    query.page_size = 2;
    query.page = 2;
    let page = list_documents(&client(), &query).unwrap();
    assert_eq!(page.get("count"), Some(&number(6)));
    assert_eq!(
        page.get("next"),
        Some(&text("https://demo.paperless.local/api/documents/?page=3&page_size=2"))
    );
    assert_eq!(
        page.get("previous"),
        Some(&text("https://demo.paperless.local/api/documents/?page=1&page_size=2"))
    );
    assert_eq!(array_len(page.get("results").unwrap()), 2);
}

#[test]
fn demo_listing_past_the_end_is_empty() {
    let mut query = DocumentQuery::new();
    query.page = 9;
    let page = list_documents(&client(), &query).unwrap();
    assert_eq!(array_len(page.get("results").unwrap()), 0);
    assert_eq!(page.get("next"), Some(&JsonValue::Null));
}

#[test]
fn demo_pagination_follows_next_links() {
    let mut query = DocumentQuery::new();
    query.page_size = 2;
    let summaries = list_all_document_summaries(&client(), &query).unwrap();
    let ids: Vec<u64> = summaries.iter().map(|s| s.id).collect();
    assert_eq!(ids, vec![301, 302, 303, 304, 305, 306]);
    assert_eq!(summaries[1].title, "Consulting Invoice March 2026");
    assert_eq!(summaries[1].created, "2026-03-26");
}

#[test]
fn demo_global_search() {
    let result = query_search(&client(), "tax".to_string(), 25, 1).unwrap();
    assert_eq!(result.get("total"), Some(&number(4)));
    assert_eq!(array_len(result.get("documents").unwrap()), 1);
    assert_eq!(array_len(result.get("tags").unwrap()), 1);
    assert_eq!(array_len(result.get("correspondents").unwrap()), 1);
    assert_eq!(array_len(result.get("document_types").unwrap()), 1);
    assert_eq!(result.get("users"), Some(&JsonValue::Array(Vec::new())));
}

#[test]
fn demo_autocomplete() {
    let result = autocomplete_search(&client(), "Invoice".to_string(), 2).unwrap();
    assert_eq!(
        result,
        JsonValue::Array(vec![
            text("Consulting Invoice March 2026"),
            text("Project Delivery Invoice 25-26-010"),
        ])
    );
    let all = autocomplete_search(&client(), "invoice".to_string(), 10).unwrap();
    assert_eq!(array_len(&all), 3);
}

#[test]
fn demo_downloads() {
    let c = client();
    let file = download_document(&c, 301, false).unwrap();
    assert_eq!(file.file_name, "quarterly-tax-summary-q1-2026.pdf");
    assert_eq!(file.bytes, b"%PDF-1.4\n% DEMO\n".to_vec());
    let thumb = download_thumbnail(&c, 302).unwrap();
    assert_eq!(thumb.file_name, "consulting-invoice-march-2026.png");
    assert_eq!(thumb.bytes, b"PNG DEMO".to_vec());
    let preview = download_preview(&c, 306).unwrap();
    assert_eq!(preview.file_name, "office-rent-invoice-april-2026.pdf");
    assert!(download_document(&c, 42, true).is_err());
}

#[test]
fn demo_bulk_downloads() {
    let c = client();
    let results = bulk_download(&c, &[303, 999], false);
    assert_eq!(results.len(), 2);
    assert_eq!(results[0].0, 303);
    assert_eq!(
        results[0].1.as_ref().unwrap().file_name,
        "project-delivery-invoice-25-26-010.pdf"
    );
    assert_eq!(results[1].0, 999);
    assert!(results[1].1.is_err());
    let archive = bulk_download_zip(&c, &[301, 302], "both").unwrap();
    assert_eq!(archive, vec![0x50, 0x4b, 0x03, 0x04, b'D', b'E', b'M', b'O']);
}

#[test]
fn demo_changes() {
    let c = client();
    let request = UpdateRequest { title: Some("Renamed".to_string()), ..UpdateRequest::default() };
    let updated = update_document(&c, 301, &request).unwrap();
    assert_eq!(updated.get("title"), Some(&text("Renamed")));
    assert_eq!(updated.get("id"), Some(&number(301)));
    let edited = edit_document(
        &c,
        301,
        &UpdateRequest::default(),
        &["banking".to_string()],
        &["tax".to_string()],
    )
    .unwrap();
    assert_eq!(edited.get("tags"), Some(&JsonValue::Array(vec![number(22), number(61)])));
    let tag = update_tag(
        &c,
        59,
        &TagUpdateRequest { name: Some("taxes".to_string()), color: None, inbox: None },
    )
    .unwrap();
    assert_eq!(tag.get("name"), Some(&text("taxes")));
    assert_eq!(tag.get("color"), Some(&text("#f59e0b")));
    assert!(delete_document(&c, 301).is_ok());
    assert!(delete_tag(&c, 59).is_ok());
}

#[test]
fn demo_creations() {
    let c = client();
    let tag = create_tag(&c, "urgent".to_string(), "#ff0000".to_string(), true).unwrap();
    assert_eq!(tag.get("id"), Some(&number(999)));
    assert_eq!(tag.get("name"), Some(&text("urgent")));
    assert_eq!(tag.get("is_inbox_tag"), Some(&JsonValue::Bool(true)));
    let correspondent = create_correspondent(&c, "Acme".to_string(), "acme".to_string()).unwrap();
    assert_eq!(correspondent.get("match"), Some(&text("acme")));
    assert_eq!(correspondent.get("matching_algorithm"), Some(&number(0)));
}

#[test]
fn demo_bulk_edits() {
    let c = client();
    assert_eq!(split_document(&c, 301, "1,2-3", false).unwrap().get("result"), Some(&text("OK")));
    assert_eq!(merge_documents(&c, &[301, 302], false).unwrap().get("demo"), Some(&JsonValue::Bool(true)));
}

#[test]
fn demo_document_views() {
    let c = client();
    let content = get_document_content(&c, 305).unwrap();
    assert_eq!(content.get("title"), Some(&text("Equipment Purchase Receipt")));
    assert_eq!(
        content.get("content"),
        Some(&text("Receipt for office equipment purchase.\nVendor: Hardware Supplier Ltd\nTotal paid: \u{a3}2,149.00"))
    );
    let inspector = get_document_inspector(&c, 301).unwrap();
    assert_eq!(inspector.id, 301);
    assert_eq!(
        inspector.metadata,
        vec![
            "created 2026-04-02".to_string(),
            "file quarterly-tax-summary-q1-2026.pdf".to_string(),
            "pages 3".to_string(),
            "mime application/pdf".to_string(),
            "tags 2".to_string(),
        ]
    );
}

#[test]
fn demo_dashboard_and_overview() {
    let c = client();
    let board = dashboard(&c, "https://demo.paperless.local").unwrap();
    assert!(board.documents.is_empty());
    let task = board.latest_task.unwrap();
    assert_eq!(task.id, Some(901));
    assert_eq!(task.status, "SUCCESS");
    assert_eq!(task.note, "project-delivery-invoice-25-26-010.pdf");
    let overview = operational_overview(&c, "https://demo.paperless.local").unwrap();
    assert_eq!(overview.get("statistics").unwrap().get("documents_total"), Some(&number(6)));
    assert_eq!(array_len(overview.get("tasks").unwrap()), 2);
}

#[test]
fn demo_transport_rejects_bad_urls() {
    let request = RequestData {
        method: HttpMethod::Get,
        endpoint: Endpoint::Absolute("not a url".to_string()),
        query: Vec::new(),
        json_body: None,
        form: None,
    };
    match DemoTransport::new().send(request) {
        Err(AppError::Message(m)) => assert_eq!(m, "Invalid demo URL: not a url"),
        other => panic!("unexpected {other:?}"),
    }
}

#[test]
fn demo_transport_routes_full_urls() {
    let request = RequestData {
        method: HttpMethod::Get,
        endpoint: Endpoint::Absolute(
            "https://demo.paperless.local/api/tags/61/?ignored=1".to_string(),
        ),
        query: Vec::new(),
        json_body: None,
        form: None,
    };
    let response = DemoTransport::new().send(request).unwrap();
    assert_eq!(response.status, 200);
    assert_eq!(response.url, "https://demo.paperless.local/api/tags/61");
    let body = decode_json(&response.body).unwrap();
    assert_eq!(body.get("name"), Some(&text("banking")));
}

#[test]
fn demo_dispatch_answers() {
    let response = dispatch_demo_request(HttpMethod::Delete, "/tags/22/", &[], None).unwrap();
    assert_eq!(response.status, 204);
    assert!(response.body.is_empty());
    assert!(response.headers.is_empty());
    let file = dispatch_demo_request(HttpMethod::Get, "documents/304/thumb/", &[], None).unwrap();
    assert_eq!(
        file.headers,
        vec![
            ("content-type".to_string(), "image/png".to_string()),
            (
                "content-disposition".to_string(),
                "attachment; filename=\"business-account-statement-april-2026.png\"".to_string()
            ),
        ]
    );
    assert_eq!(file.url, "https://demo.paperless.local/api/documents/304/thumb/");
    let stats = dispatch_demo_request(HttpMethod::Get, "statistics", &[], None).unwrap();
    assert_eq!(
        stats.headers,
        vec![("content-type".to_string(), "application/json".to_string())]
    );
    let body = decode_json(&stats.body).unwrap();
    assert_eq!(body.get("storage_size"), Some(&text("42 MB")));
    assert!(matches!(
        dispatch_demo_request(HttpMethod::Post, "documents/301", &[], None),
        Err(AppError::Http { status: 404, .. })
    ));
}

#[test]
fn demo_helpers() {
    assert_eq!(demo_url("//documents/1/"), "https://demo.paperless.local/api/documents/1/");
    let query = vec![
        ("page".to_string(), "2".to_string()),
        ("page".to_string(), "3".to_string()),
    ];
    assert_eq!(query_value(&query, "page").as_deref(), Some("2"));
    assert_eq!(query_value(&query, "limit"), None);
    assert_eq!(parse_id("+17").unwrap(), 17);
    match parse_id("-1") {
        Err(AppError::Message(m)) => assert_eq!(m, "Invalid demo identifier: -1"),
        other => panic!("unexpected {other:?}"),
    }
    let file = ok_binary("x/", vec![1, 2], "text/plain", None).unwrap();
    assert_eq!(file.headers, vec![("content-type".to_string(), "text/plain".to_string())]);
    assert_eq!(file.body, vec![1, 2]);
    let empty = empty_response("tags/1").unwrap();
    assert_eq!((empty.status, empty.url.as_str()), (204, "https://demo.paperless.local/api/tags/1"));
}

#[test]
fn demo_upload_is_queued() {
    let request = UploadRequest {
        path: "scan.pdf".to_string(),
        title: Some("Scan".to_string()),
        correspondent_id: None,
        document_type_id: None,
        tag_ids: vec![22],
    };
    let answer = upload_document(&client(), &request).unwrap();
    assert_eq!(answer.get("task_id"), Some(&text("demo-task-upload-001")));
    assert_eq!(answer.get("status"), Some(&text("queued")));
}

#[test]
fn demo_dispatch_ignores_outer_slashes() {
    let cases = [
        (HttpMethod::Get, "tags/22"),
        (HttpMethod::Get, "documents/304/thumb"),
        (HttpMethod::Get, "statistics"),
        (HttpMethod::Delete, "documents/301"),
        (HttpMethod::Get, "nothing/here"),
        (HttpMethod::Get, "tags/x"),
    ];
    for (method, path) in cases {
        let plain = dispatch_demo_request(method, path, &[], None);
        let wrapped = dispatch_demo_request(method, &format!("/{path}/"), &[], None);
        assert_eq!(format!("{plain:?}"), format!("{wrapped:?}"));
    }
}

#[test]
fn demo_documents_refer_to_demo_rows() {
    let has_id = |items: &Vec<JsonValue>, id: &JsonValue| items.iter().any(|item| item.get("id") == Some(id));
    let tags = demo_tags();
    let correspondents = demo_correspondents();
    let types = demo_document_types();
    let documents = demo_documents();
    assert_eq!(documents.len(), 6);
    for document in &documents {
        for tag in document.get("tags").unwrap().as_array().unwrap() {
            assert!(has_id(&tags, tag));
        }
        assert!(has_id(&correspondents, document.get("correspondent").unwrap()));
        assert!(has_id(&types, document.get("document_type").unwrap()));
    }
}

#[test]
fn demo_edit_without_tags_is_an_update() {
    let request = UpdateRequest { title: Some("Renamed".to_string()), ..UpdateRequest::default() };
    let edited = edit_document(&client(), 302, &request, &[], &[]).unwrap();
    let updated = update_document(&client(), 302, &request).unwrap();
    assert_eq!(edited, updated);
    assert!(matches!(
        edit_document(&client(), 302, &UpdateRequest::default(), &[], &[]),
        Err(AppError::NoFieldsToUpdate)
    ));
}
