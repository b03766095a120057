use egocms_updater::communicator::{Communicator, HttpMethod};
use egocms_updater::page::{Page, PageError, PageToFileMapping};

const PAGE_JSON: &str = r#"{"id":56,"name":"landing","extra":{"content1":"<p>old</p>","teaser":"x","n":1}}"#;

fn communicator() -> Communicator {
    Communicator::new("https://localhost/rest/".into(), "materialkit/de/".into(), "u".into(), "t".into(), true)
}

fn page(markdown: &str) -> Page {
    let extra = Page::extra_section(PAGE_JSON).ok().unwrap();
    Page::new(PageToFileMapping::new("56".into(), "landing_page.md".into()), extra, markdown)
}

#[test]
fn extra_section_takes_the_extra_member() {
    let extra = Page::extra_section(PAGE_JSON).ok().unwrap();
    assert_eq!(extra, r#"{"content1":"<p>old</p>","n":1,"teaser":"x"}"#);
}

#[test]
fn extra_section_errors() {
    assert!(matches!(Page::extra_section("{not json"), Err(PageError::InvalidJson(_))));
    assert!(matches!(Page::extra_section(r#"{"id":1}"#), Err(PageError::MissingExtra)));
    assert!(matches!(Page::extra_section("[1,2]"), Err(PageError::MissingExtra)));
    assert!(matches!(Page::extra_section("null"), Err(PageError::MissingExtra)));
}

#[test]
fn new_turns_markdown_into_html() {
    let p = page("# Hi Mercury!");
    assert_eq!(p.html(), "<h1>Hi Mercury!</h1>");
    assert_eq!(p.mapping.page_id, "56");
    assert_eq!(p.mapping.markdown_name, "landing_page.md");
}

#[test]
fn up_to_date_compares_online_content_with_html() {
    let p = page("old");
    assert_eq!(p.html(), "<p>old</p>");
    assert!(p.is_up_to_date("/content1").ok().unwrap());
    let q = page("new");
    assert!(!q.is_up_to_date("/content1").ok().unwrap());
}

#[test]
fn up_to_date_needs_a_string_at_the_pointer() {
    let p = page("old");
    assert!(matches!(p.is_up_to_date("/missing"), Err(PageError::MissingContent)));
    assert!(matches!(p.is_up_to_date("/n"), Err(PageError::MissingContent)));
    assert!(matches!(p.is_up_to_date("content1"), Err(PageError::MissingContent)));
}

#[test]
fn update_sends_the_extra_with_the_html() {
    let mut p = page("*new*");
    let request = p.update(&communicator(), "/content1").ok().unwrap();
    assert_eq!(request.method, HttpMethod::Put);
    assert_eq!(request.url, "https://localhost/rest/materialkit/de/56/updateExtra");
    assert!(request.query.is_empty());
    assert_eq!(
        request.json_body.as_deref(),
        Some(r#"{"extra":{"content1":"<p><em>new</em></p>","n":1,"teaser":"x"}}"#)
    );
    assert_eq!(p.extra(), "null");
}

#[test]
fn updated_page_reads_back_up_to_date() {
    let mut p = page("Some *text* with \"quotes\" and a [link](https://example.org).");
    assert!(!p.is_up_to_date("/content1").ok().unwrap());
    let request = p.update(&communicator(), "/content1").ok().unwrap();
    let body = request.json_body.unwrap();
    let extra = Page::extra_section(&body).ok().unwrap();
    let fresh = Page::new(
        PageToFileMapping::new("56".into(), "landing_page.md".into()),
        extra,
        "Some *text* with \"quotes\" and a [link](https://example.org).",
    );
    assert!(fresh.is_up_to_date("/content1").ok().unwrap());
}

#[test]
fn update_without_content_changes_nothing() {
    let mut p = page("new");
    let before = p.extra().to_string();
    assert!(matches!(p.update(&communicator(), "/nothing/here"), Err(PageError::MissingContent)));
    assert_eq!(p.extra(), before);
}

#[test]
fn update_can_replace_a_non_string() {
    let mut p = page("new");
    let request = p.update(&communicator(), "/n").ok().unwrap();
    assert_eq!(
        request.json_body.as_deref(),
        Some(r#"{"extra":{"content1":"<p>old</p>","n":"<p>new</p>","teaser":"x"}}"#)
    );
}

#[test]
fn mapping_duplicate_keeps_both_fields() {
    let m = PageToFileMapping::new("58".into(), "research/cosemos.md".into());
    let d = m.duplicate();
    assert_eq!(d.page_id, "58");
    assert_eq!(d.markdown_name, "research/cosemos.md");
}

#[test]
fn synchronize_sends_nothing_for_an_up_to_date_page() {
    let mut p = page("old");
    let before = p.extra().to_string();
    assert!(p.synchronize(&communicator(), "/content1").ok().unwrap().is_none());
    assert_eq!(p.extra(), before);
}

#[test]
fn synchronize_updates_a_stale_page() {
    let mut p = page("# Title");
    let request = p.synchronize(&communicator(), "/content1").ok().unwrap().unwrap();
    assert_eq!(request.url, "https://localhost/rest/materialkit/de/56/updateExtra");
    assert_eq!(
        request.json_body.as_deref(),
        Some(r#"{"extra":{"content1":"<h1>Title</h1>","n":1,"teaser":"x"}}"#)
    );
    assert_eq!(p.extra(), "null");
}

#[test]
fn synchronize_reports_missing_content() {
    let mut p = page("new");
    assert!(matches!(p.synchronize(&communicator(), "/n"), Err(PageError::MissingContent)));
    assert!(matches!(p.synchronize(&communicator(), "/a/b"), Err(PageError::MissingContent)));
}

#[test]
fn floats_in_extra_are_sent_unchanged() {
    let json = r#"{"extra":{"content1":"<p>old</p>","ratio":0.1,"big":1.7976931348623157e308,"small":5e-324,"odd":0.30000000000000004}}"#;
    let extra = Page::extra_section(json).ok().unwrap();
    let mut p = Page::new(PageToFileMapping::new("1".into(), "a.md".into()), extra, "new");
    let body = p.update(&communicator(), "/content1").ok().unwrap().json_body.unwrap();
    assert_eq!(
        body,
        r#"{"extra":{"big":1.7976931348623157e+308,"content1":"<p>new</p>","odd":0.30000000000000004,"ratio":0.1,"small":5e-324}}"#
    );
    let back = Page::extra_section(&body).ok().unwrap();
    assert_eq!(format!("{{\"extra\":{back}}}"), body);
}

fn nested(depth: usize, inner: &str) -> String {
    format!("{}{}{}", "[".repeat(depth), inner, "]".repeat(depth))
}

#[test]
fn deepest_extra_reads_back_after_an_update() {
    // The parser takes documents up to 127 levels deep, so an `extra` is at most 126 deep.
    let pointer = "/0".repeat(126);
    let json = format!("{{\"extra\":{}}}", nested(126, "\"a\""));
    let extra = Page::extra_section(&json).ok().unwrap();
    let mut p = Page::new(PageToFileMapping::new("1".into(), "a.md".into()), extra, "b");
    let body = p.update(&communicator(), &pointer).ok().unwrap().json_body.unwrap();
    assert_eq!(body, format!("{{\"extra\":{}}}", nested(126, "\"<p>b</p>\"")));
    let back = Page::extra_section(&body).ok().unwrap();
    let fresh = Page::new(PageToFileMapping::new("1".into(), "a.md".into()), back, "b");
    assert!(fresh.is_up_to_date(&pointer).ok().unwrap());
}

#[test]
fn too_deep_documents_are_refused() {
    let json = format!("{{\"extra\":{}}}", nested(127, "\"a\""));
    assert!(matches!(Page::extra_section(&json), Err(PageError::InvalidJson(_))));
    // An `extra` given directly may be 127 deep; what is sent then does not read back.
    let pointer = "/0".repeat(127);
    let mut p = Page::new(PageToFileMapping::new("1".into(), "a.md".into()), nested(127, "\"a\""), "b");
    let body = p.update(&communicator(), &pointer).ok().unwrap().json_body.unwrap();
    assert!(matches!(Page::extra_section(&body), Err(PageError::InvalidJson(_))));
}
