use paperless_cli::filename::{
    decode_rfc5987_filename, extract_download_filename, percent_decode, sanitize_filename,
};

#[test]
fn percent_decode_plain_and_escaped() {
    assert_eq!(percent_decode("hello%20world").as_deref(), Some("hello world"));
    assert_eq!(percent_decode("plain.txt").as_deref(), Some("plain.txt"));
    assert_eq!(percent_decode("%E2%82%AC").as_deref(), Some("\u{20ac}"));
    assert_eq!(percent_decode("%41%62").as_deref(), Some("Ab"));
}

#[test]
fn percent_decode_rejects_broken_escapes() {
    assert_eq!(percent_decode("%4"), None);
    assert_eq!(percent_decode("abc%"), None);
    assert_eq!(percent_decode("%zz"), None);
    assert_eq!(percent_decode("%FF"), None);
}

#[test]
fn percent_decode_accepts_a_plus_sign_in_an_escape() {
    assert_eq!(percent_decode("%+5").as_deref(), Some("\u{5}"));
}

#[test]
fn rfc5987_values_are_decoded() {
    assert_eq!(decode_rfc5987_filename("UTF-8''na%C3%AFve.txt").as_deref(), Some("na\u{ef}ve.txt"));
    assert_eq!(decode_rfc5987_filename("\"UTF-8''a%20b\"").as_deref(), Some("a b"));
    assert_eq!(decode_rfc5987_filename("simple.pdf").as_deref(), Some("simple.pdf"));
    assert_eq!(decode_rfc5987_filename("UTF-8''%Z1"), None);
}

#[test]
fn extended_filename_wins_over_plain_one() {
    let header = "attachment; filename=\"plain.pdf\"; filename*=UTF-8''fancy%20name.pdf";
    assert_eq!(extract_download_filename(header).as_deref(), Some("fancy name.pdf"));
}

#[test]
fn plain_filename_is_the_fallback() {
    assert_eq!(
        extract_download_filename("attachment; filename=\"plain.pdf\"").as_deref(),
        Some("plain.pdf")
    );
    let broken = "attachment; filename*=UTF-8''%ZZ; filename=\"x.pdf\"";
    assert_eq!(extract_download_filename(broken).as_deref(), Some("x.pdf"));
    assert_eq!(extract_download_filename("inline"), None);
    assert_eq!(extract_download_filename("attachment; filename=\"\""), None);
}

#[test]
fn first_plain_filename_is_kept() {
    let header = "attachment; filename=first.pdf; filename=second.pdf";
    assert_eq!(extract_download_filename(header).as_deref(), Some("first.pdf"));
}

#[test]
fn sanitize_keeps_safe_names() {
    assert_eq!(sanitize_filename("report-2026_v1.pdf"), "report-2026_v1.pdf");
}

#[test]
fn sanitize_replaces_unsafe_characters() {
    assert_eq!(sanitize_filename("report 2026.pdf"), "report_2026.pdf");
    assert_eq!(sanitize_filename("r\u{e9}sum\u{e9}.pdf"), "r_sum_.pdf");
}

#[test]
fn sanitize_keeps_only_the_last_path_component() {
    assert_eq!(sanitize_filename("../../etc/passwd"), "passwd");
    assert_eq!(sanitize_filename("a/b/"), "b");
}

#[test]
fn sanitize_falls_back_without_a_file_name() {
    assert_eq!(sanitize_filename(".."), "download.bin");
    assert_eq!(sanitize_filename(""), "download.bin");
    assert_eq!(sanitize_filename("/"), "download.bin");
}

#[test]
fn sanitize_is_idempotent_on_examples() {
    for name in ["a b.pdf", "../x y", "..", "na\u{ef}ve.txt", "dir/file.tar.gz"] {
        let once = sanitize_filename(name);
        assert_eq!(sanitize_filename(&once), once);
    }
}

#[test]
fn percent_decode_leaves_text_without_percent_unchanged() {
    for text in ["abc", "with space", "caf\u{e9}", ""] {
        assert_eq!(percent_decode(text).as_deref(), Some(text));
    }
}
