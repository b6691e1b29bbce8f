use paperless_cli::cli::{
    choose_credentials, document_query_from_filters, login_method, login_need, nonblank,
    output_name, prompt_answer, suppressible_command, Credentials, DocumentFilters, LoginMethod,
    LoginNeed, OutputMode,
};
use paperless_cli::demo::slugify;
use paperless_cli::error::AppError;
use paperless_cli::json::{decode_json, encode_json, JsonNumber, JsonValue};
use paperless_cli::services::{
    document_summaries_from_response, document_summary_from_value, document_text_representation,
    latest_task_summary, next_page_url_from_response, bulk_download_body, create_tag_body, document_patch, download_file_name, item_path,
    merge_body, merge_tag_ids, resolve_tag_references, search_pairs, split_body, tag_patch,
    update_patch, upload_fields, DocumentQuery, TagUpdateRequest, UpdateRequest, UploadRequest,
};

fn pairs(list: &[(&str, &str)]) -> Vec<(String, String)> {
    list.iter().map(|(k, v)| (k.to_string(), v.to_string())).collect()
}

fn text(s: &str) -> JsonValue {
    JsonValue::String(s.to_string())
}

fn number(n: u64) -> JsonValue {
    JsonValue::Number(JsonNumber::PosInt(n))
}

fn object(entries: Vec<(&str, JsonValue)>) -> JsonValue {
    JsonValue::Object(entries.into_iter().map(|(k, v)| (k.to_string(), v)).collect())
}

fn encoded(value: &JsonValue) -> String {
    String::from_utf8(encode_json(value).unwrap()).unwrap()
}

#[test]
fn default_query_pairs() {
    let q = DocumentQuery::new();
    assert_eq!(
        q.to_query_pairs(),
        pairs(&[("ordering", "-created"), ("page_size", "25"), ("page", "1")])
    );
}

#[test]
fn query_pairs_with_every_filter() {
    let mut q = DocumentQuery::new();
    q.query = Some("tax".to_string());
    q.tag = Some("finance".to_string());
    q.tag_id = Some(22);
    q.correspondent = Some("bank".to_string());
    q.correspondent_id = Some(14);
    q.document_type = Some("invoice".to_string());
    q.document_type_id = Some(8);
    q.created_after = Some("2026-01-01".to_string());
    q.created_before = Some("2026-12-31".to_string());
    q.page = 3;
    assert_eq!(
        q.to_query_pairs(),
        pairs(&[
            ("query", "tax"),
            ("tags__name__icontains", "finance"),
            ("tags__id__in", "22"),
            ("correspondent__name__icontains", "bank"),
            ("correspondent__id", "14"),
            ("document_type__name__icontains", "invoice"),
            ("document_type__id", "8"),
            ("created__date__gt", "2026-01-01"),
            ("created__date__lt", "2026-12-31"),
            ("ordering", "-created"),
            ("page_size", "25"),
            ("page", "3"),
        ])
    );
}

#[test]
fn search_pairs_carry_the_page() {
    assert_eq!(
        search_pairs("rent".to_string(), 10, 2),
        pairs(&[("query", "rent"), ("page_size", "10"), ("page", "2")])
    );
}

#[test]
fn empty_update_is_refused() {
    let request = UpdateRequest::default();
    assert!(matches!(update_patch(&request), Err(AppError::NoFieldsToUpdate)));
    assert!(matches!(tag_patch(&TagUpdateRequest::default()), Err(AppError::NoFieldsToUpdate)));
}

#[test]
fn update_patch_holds_the_changed_fields() {
    let request = UpdateRequest {
        title: Some("New".to_string()),
        correspondent_id: Some(11),
        tag_ids: Some(vec![22, 59]),
        asn: Some(7),
        ..UpdateRequest::default()
    };
    let patch = update_patch(&request).unwrap();
    assert_eq!(
        encoded(&patch),
        "{\"archive_serial_number\":7,\"correspondent\":11,\"tags\":[22,59],\"title\":\"New\"}"
    );
}

#[test]
fn document_patch_uses_the_given_tags() {
    let request = UpdateRequest { title: Some("T".to_string()), ..UpdateRequest::default() };
    let patch = document_patch(&request, &Some(vec![1, 2])).unwrap();
    assert_eq!(patch.get("tags"), Some(&JsonValue::Array(vec![number(1), number(2)])));
    assert_eq!(patch.get("title"), Some(&text("T")));
}

#[test]
fn tag_patch_holds_the_changed_fields() {
    let request = TagUpdateRequest { name: Some("taxes".to_string()), color: None, inbox: Some(true) };
    let patch = tag_patch(&request).unwrap();
    assert_eq!(encoded(&patch), "{\"is_inbox_tag\":true,\"name\":\"taxes\"}");
}

#[test]
fn request_bodies() {
    assert_eq!(
        encoded(&create_tag_body("urgent".to_string(), "#ff0000".to_string(), true)),
        "{\"color\":\"#ff0000\",\"is_inbox_tag\":true,\"name\":\"urgent\"}"
    );
    assert_eq!(
        encoded(&split_body(301, "1-2,3", false)),
        "{\"documents\":[301],\"method\":\"split\",\"parameters\":{\"delete_originals\":false,\"pages\":\"1-2,3\"}}"
    );
    assert_eq!(
        encoded(&merge_body(&[301, 302], true)),
        "{\"documents\":[301,302],\"method\":\"merge\",\"parameters\":{\"delete_originals\":true}}"
    );
    assert_eq!(
        encoded(&bulk_download_body(&[301], "both")),
        "{\"content\":\"both\",\"documents\":[301]}"
    );
}

#[test]
fn upload_fields_list_every_tag() {
    let request = UploadRequest {
        path: "scan.pdf".to_string(),
        title: Some("Scan".to_string()),
        correspondent_id: None,
        document_type_id: Some(8),
        tag_ids: vec![22, 61],
    };
    assert_eq!(
        upload_fields(&request),
        pairs(&[("title", "Scan"), ("document_type", "8"), ("tags", "22"), ("tags", "61")])
    );
}

#[test]
fn item_paths() {
    assert_eq!(item_path("tags/", 59), "tags/59/");
}

#[test]
fn merging_tags_adds_and_removes() {
    assert_eq!(merge_tag_ids(vec![22, 59], &[61, 22], &[59]), vec![22, 61]);
    assert_eq!(merge_tag_ids(vec![1], &[], &[]), vec![1]);
    assert_eq!(merge_tag_ids(vec![], &[5, 5], &[]), vec![5]);
}

#[test]
fn merged_tags_keep_no_removed_tag_and_no_duplicate() {
    let merged = merge_tag_ids(vec![1, 2, 3], &[3, 4, 4, 5], &[2, 5]);
    assert_eq!(merged, vec![1, 3, 4]);
    for removed in [2, 5] {
        assert!(!merged.contains(&removed));
    }
}

#[test]
fn tag_references_resolve_by_id_and_name() {
    let tags = vec![
        object(vec![("id", number(22)), ("name", text("finance"))]),
        object(vec![("id", number(59)), ("name", text("tax"))]),
    ];
    let refs = vec!["tax".to_string(), "7".to_string()];
    assert_eq!(resolve_tag_references(&tags, &refs).unwrap(), vec![59, 7]);
    let unknown = vec!["Tax".to_string()];
    match resolve_tag_references(&tags, &unknown) {
        Err(AppError::Message(m)) => assert_eq!(
            m,
            "Unknown tag reference `Tax`. Use an exact tag name or numeric ID."
        ),
        other => panic!("unexpected {other:?}"),
    }
}

#[test]
fn download_names_come_from_the_header_or_the_default() {
    let headers = pairs(&[("content-disposition", "attachment; filename=\"a b.pdf\"")]);
    assert_eq!(download_file_name(&headers, 3, "download"), "a_b.pdf");
    assert_eq!(download_file_name(&Vec::new(), 3, "thumb"), "document_3_thumb.bin");
}

#[test]
fn slugs() {
    assert_eq!(slugify("Quarterly Tax Summary Q1 2026"), "quarterly-tax-summary-q1-2026");
    assert_eq!(slugify("  --Hello,   World!-- "), "hello-world");
    assert_eq!(slugify("\u{e9}t\u{e9}"), "t");
    assert_eq!(slugify("!!!"), "");
}

#[test]
fn slugs_are_idempotent_and_well_formed() {
    for title in ["Project Delivery Invoice 25-26-010", "  a--b  ", "\u{e9}\u{e9}", "X"] {
        let slug = slugify(title);
        assert_eq!(slugify(&slug), slug);
        assert!(slug.chars().all(|c| c.is_ascii_lowercase() || c.is_ascii_digit() || c == '-'));
        assert!(!slug.starts_with('-') && !slug.ends_with('-'));
        assert!(!slug.contains("--"));
    }
}

#[test]
fn json_round_trip() {
    let value = object(vec![
        ("a", JsonValue::Array(vec![number(1), JsonValue::Null, JsonValue::Bool(false)])),
        ("b", text("x\"y")),
        ("c", JsonValue::Number(JsonNumber::NegInt(-5))),
    ]);
    let bytes = encode_json(&value).unwrap();
    assert_eq!(decode_json(&bytes).unwrap(), value);
    assert!(matches!(decode_json(b"{not json"), Err(AppError::Json(_))));
}

#[test]
fn output_names() {
    assert_eq!(output_name(OutputMode::Json), "json");
    assert_eq!(output_name(OutputMode::Markdown), "markdown");
    assert_eq!(output_name(OutputMode::Tui), "tui");
}

#[test]
fn quiet_suppresses_only_markdown_confirmations() {
    assert!(suppressible_command("tags create", OutputMode::Markdown));
    assert!(suppressible_command("export bulk", OutputMode::Markdown));
    assert!(!suppressible_command("tags list", OutputMode::Markdown));
    assert!(!suppressible_command("tags create", OutputMode::Json));
    assert!(!suppressible_command("login", OutputMode::Tui));
}

#[test]
fn login_methods() {
    assert_eq!(login_method("  Token ").unwrap(), LoginMethod::Token);
    assert_eq!(login_method("1").unwrap(), LoginMethod::Token);
    assert_eq!(login_method("USERPASS").unwrap(), LoginMethod::Password);
    assert_eq!(login_method("p").unwrap(), LoginMethod::Password);
    match login_method("oauth") {
        Err(AppError::Message(m)) => {
            assert_eq!(m, "Unsupported login method. Choose `token` or `password`.")
        }
        other => panic!("unexpected {other:?}"),
    }
}

#[test]
fn login_needs() {
    let s = |v: &str| Some(v.to_string());
    assert_eq!(login_need(&s("t"), &None, &None), LoginNeed::UseToken);
    assert_eq!(
        login_need(&None, &s("me"), &None),
        LoginNeed::UsePassword { ask_username: false, ask_password: true }
    );
    assert_eq!(login_need(&None, &None, &None), LoginNeed::AskMethod);
}

#[test]
fn credentials_need_a_token_or_both_halves() {
    assert!(matches!(
        choose_credentials(Some("t".to_string()), None, None),
        Ok(Credentials::Token(t)) if t == "t"
    ));
    assert!(matches!(
        choose_credentials(None, Some("u".to_string()), Some("p".to_string())),
        Ok(Credentials::Password { username, password }) if username == "u" && password == "p"
    ));
    assert!(matches!(
        choose_credentials(None, Some("u".to_string()), None),
        Err(AppError::MissingCredentials)
    ));
}

#[test]
fn prompt_answers_are_trimmed_and_not_empty() {
    assert_eq!(prompt_answer("Paperless URL", "  https://x  \n").unwrap(), "https://x");
    match prompt_answer("Paperless URL", "   ") {
        Err(AppError::Message(m)) => assert_eq!(m, "Paperless URL cannot be empty."),
        other => panic!("unexpected {other:?}"),
    }
}

#[test]
fn blank_values_are_dropped() {
    assert_eq!(nonblank(Some("  ".to_string())), None);
    assert_eq!(nonblank(Some(" x ".to_string())), Some(" x ".to_string()));
    assert_eq!(nonblank(None), None);
}

#[test]
fn filters_become_a_query() {
    let filters = DocumentFilters {
        tag: Some("finance".to_string()),
        tag_id: None,
        correspondent: None,
        correspondent_id: Some(11),
        document_type: None,
        type_id: Some(7),
        created_after: None,
        created_before: Some("2026-05-01".to_string()),
        order_by: "title".to_string(),
        page_size: 10,
        page: 2,
    };
    let q = document_query_from_filters(Some("tax".to_string()), &filters);
    assert_eq!(
        q.to_query_pairs(),
        pairs(&[
            ("query", "tax"),
            ("tags__name__icontains", "finance"),
            ("correspondent__id", "11"),
            ("document_type__id", "7"),
            ("created__date__lt", "2026-05-01"),
            ("ordering", "title"),
            ("page_size", "10"),
            ("page", "2"),
        ])
    );
}

#[test]
fn summaries_of_documents() {
    let doc = object(vec![("id", number(5)), ("created_date", text("2026-01-02"))]);
    let summary = document_summary_from_value(&doc);
    assert_eq!(summary.id, 5);
    assert_eq!(summary.title, "Untitled");
    assert_eq!(summary.created, "2026-01-02");
    let empty = document_summary_from_value(&JsonValue::Null);
    assert_eq!((empty.id, empty.title.as_str(), empty.created.as_str()), (0, "Untitled", "unknown"));
}

#[test]
fn summaries_of_a_page() {
    let page = object(vec![
        ("next", text("https://x/api/documents/?page=2")),
        (
            "results",
            JsonValue::Array(vec![
                object(vec![("id", number(1)), ("title", text("A")), ("created", text("d1"))]),
                object(vec![("id", number(2)), ("title", text("B"))]),
            ]),
        ),
    ]);
    let summaries = document_summaries_from_response(&page);
    assert_eq!(summaries.len(), 2);
    assert_eq!(summaries[1].title, "B");
    assert_eq!(summaries[1].created, "unknown");
    assert_eq!(next_page_url_from_response(&page).as_deref(), Some("https://x/api/documents/?page=2"));
    let list = JsonValue::Array(vec![object(vec![("id", number(9))])]);
    assert!(document_summaries_from_response(&list).is_empty());
    assert_eq!(next_page_url_from_response(&list), None);
    assert!(document_summaries_from_response(&text("x")).is_empty());
}

#[test]
fn text_representation_prefers_content() {
    let doc = object(vec![("content", text("  body text \n")), ("title", text("T"))]);
    assert_eq!(document_text_representation(&doc), "body text");
    let blank = object(vec![
        ("content", text("   ")),
        ("note", text("remember")),
        ("title", text("T")),
        ("archived_file_name", text("t.pdf")),
    ]);
    assert_eq!(document_text_representation(&blank), "T\nfile: t.pdf\nremember");
    assert_eq!(
        document_text_representation(&object(vec![])),
        "No text content available for this document."
    );
}

#[test]
fn latest_task_is_the_first() {
    let tasks = JsonValue::Array(vec![
        object(vec![("id", number(7)), ("status", text("STARTED")), ("type", text("consume_file"))]),
        object(vec![("id", number(6))]),
    ]);
    let task = latest_task_summary(&tasks).unwrap();
    assert_eq!(task.id, Some(7));
    assert_eq!(task.status, "STARTED");
    assert_eq!(task.note, "consume_file");
    assert!(latest_task_summary(&JsonValue::Array(Vec::new())).is_none());
    assert!(latest_task_summary(&text("x")).is_none());
}
