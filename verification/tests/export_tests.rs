use borg::discovery::RawEntry;
use borg::org::{export_document, CustomHtmlHandler, DocElement, PublishBuilder};
use borg::paths::SysPath;
use borg::{Project, PublishAction};

fn path(absolute: bool, parts: &[&str]) -> SysPath {
    SysPath {
        absolute,
        parts: parts.iter().map(|s| s.to_string()).collect(),
    }
}

fn render_project() -> Project {
    Project {
        name: "blog".to_string(),
        description: Some("posts".to_string()),
        base_directory: path(true, &["src"]),
        base_extension: Some("org".to_string()),
        recursive: true,
        publishing_directory: path(true, &["out"]),
        exclude: Vec::new(),
        auto_sitemap: true,
        sitemap_filename: None,
        sitemap_title: None,
        recent_first: true,
        link_home: Some("https://example.net".to_string()),
        link_up: None,
        html_head: None,
        html_preamble: None,
        html_postamble: None,
        publish_action: PublishAction::ToHtml,
    }
}

fn count(haystack: &str, needle: &str) -> usize {
    haystack.match_indices(needle).count()
}

#[test]
fn date_keyword_renders_one_inline_element() {
    let handler = export_document("#+DATE: 2024-01-01\n");
    let html = handler.output;
    assert_eq!(count(&html, "<span class=\"date\">2024-01-01</span>"), 1);
    // nothing else is emitted for the keyword node itself
    assert_eq!(count(&html, "2024-01-01"), 1);
    assert_eq!(handler.date.as_deref(), Some("2024-01-01"));
}

#[test]
fn date_keyword_is_matched_case_insensitively() {
    let lower = export_document("#+date: 2024-01-01\n");
    assert_eq!(count(&lower.output, "<span class=\"date\">2024-01-01</span>"), 1);
}

#[test]
fn time_keyword_renders_a_heading() {
    let handler = export_document("#+TIME: 12:30\n");
    assert_eq!(count(&handler.output, "<h1>12:30</h1>"), 1);
}

#[test]
fn unknown_keywords_pass_through_silently() {
    let handler = export_document("#+AUTHOR: someone\n\nbody text\n");
    assert_eq!(count(&handler.output, "someone"), 0);
    assert_eq!(count(&handler.output, "body text"), 1);
}

#[test]
fn default_markup_is_preserved_for_content() {
    let handler = export_document("plain paragraph\n");
    assert!(handler.output.starts_with("<main>"));
    assert!(handler.output.ends_with("</main>"));
    assert_eq!(count(&handler.output, "<p>plain paragraph</p>"), 1);
}

#[test]
fn empty_document_renders_only_the_frame() {
    let handler = export_document("");
    assert_eq!(handler.output, "<main></main>");
    assert!(handler.title.is_none());
    assert!(handler.date.is_none());
}

#[test]
fn title_keyword_is_harvested() {
    let handler = export_document("#+TITLE: My Post\n#+DATE: 2024-02-02\n");
    assert_eq!(handler.title.as_deref(), Some("My Post"));
    assert_eq!(handler.date.as_deref(), Some("2024-02-02"));
}

#[test]
fn first_date_keyword_wins() {
    let handler = export_document("#+DATE: 2024-01-01\n#+DATE: 2024-09-09\n");
    assert_eq!(handler.date.as_deref(), Some("2024-01-01"));
}

#[test]
fn visitor_start_emits_exactly_the_override() {
    let mut handler = CustomHtmlHandler::new();
    handler.start(&DocElement::Keyword {
        key: "DATE".to_string(),
        value: "2024-01-01".to_string(),
    });
    assert_eq!(handler.output, "<span class=\"date\">2024-01-01</span>");
    assert_eq!(handler.date.as_deref(), Some("2024-01-01"));
    let mut heading = CustomHtmlHandler::new();
    heading.start(&DocElement::Keyword {
        key: "Time".to_string(),
        value: "late".to_string(),
    });
    assert_eq!(heading.output, "<h1>late</h1>");
}

#[test]
fn visitor_end_emits_nothing_for_keywords() {
    let mut handler = CustomHtmlHandler::new();
    handler.end(&DocElement::Keyword {
        key: "DATE".to_string(),
        value: "2024-01-01".to_string(),
    });
    assert_eq!(handler.output, "");
}

#[test]
fn rendered_output_lands_flat_under_the_publish_root() {
    let listing = vec![
        RawEntry {
            rel: path(false, &["sub"]),
            is_file: false,
        },
        RawEntry {
            rel: path(false, &["sub", "post.org"]),
            is_file: true,
        },
    ];
    let builder =
        PublishBuilder::from_project(&render_project(), &path(true, &[]), path(true, &["src"]), &listing)
            .unwrap();
    let jobs = builder.build();
    assert_eq!(jobs.len(), 1);
    assert_eq!(jobs[0].source.to_text(), "/src/sub/post.org");
    // flat: the subdirectory is not mirrored under the publish root
    assert_eq!(jobs[0].dest.to_text(), "/out/post.html");
    assert_eq!(jobs[0].file_name, "post.html");
}

#[test]
fn export_html_renders_one_discovered_document() {
    let listing = vec![RawEntry {
        rel: path(false, &["post.org"]),
        is_file: true,
    }];
    let builder =
        PublishBuilder::from_project(&render_project(), &path(true, &[]), path(true, &["src"]), &listing)
            .unwrap();
    let entry = &builder.dir_settings.files[0];
    let page = builder.export_html(entry, "#+TITLE: A\n#+DATE: 2024-01-01\n\nhello\n");
    assert_eq!(page.dest.to_text(), "/out/post.html");
    assert_eq!(page.page.file_name, "post.html");
    assert_eq!(page.page.title.as_deref(), Some("A"));
    assert_eq!(page.page.date.as_deref(), Some("2024-01-01"));
    assert_eq!(count(&page.html, "<span class=\"date\">2024-01-01</span>"), 1);
    assert_eq!(count(&page.html, "hello"), 1);
}
