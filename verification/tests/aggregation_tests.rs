use borg::org::RenderedPage;
use borg::paths::SysPath;
use borg::sitemap::{RssGenerator, SitemapGenerator};
use borg::{builder_for_project, AggregationError, Project, ProjectBuild, PublishAction};

fn path(absolute: bool, parts: &[&str]) -> SysPath {
    SysPath {
        absolute,
        parts: parts.iter().map(|s| s.to_string()).collect(),
    }
}

fn project() -> Project {
    Project {
        name: "journal".to_string(),
        description: Some("daily notes".to_string()),
        base_directory: path(true, &["src"]),
        base_extension: None,
        recursive: false,
        publishing_directory: path(true, &["out"]),
        exclude: Vec::new(),
        auto_sitemap: true,
        sitemap_filename: None,
        sitemap_title: None,
        recent_first: true,
        link_home: Some("https://example.net".to_string()),
        link_up: None,
        html_head: None,
        html_preamble: None,
        html_postamble: None,
        publish_action: PublishAction::ToHtml,
    }
}

fn page(file_name: &str, title: Option<&str>, date: Option<&str>) -> RenderedPage {
    RenderedPage {
        file_name: file_name.to_string(),
        title: title.map(|s| s.to_string()),
        date: date.map(|s| s.to_string()),
    }
}

fn count(haystack: &str, needle: &str) -> usize {
    haystack.match_indices(needle).count()
}

#[test]
fn recent_first_orders_pages_by_descending_date() {
    let generator = SitemapGenerator::new(&project());
    let pages = vec![
        page("a.html", Some("A"), Some("2024-01-01")),
        page("b.html", Some("B"), Some("2024-03-01")),
        page("c.html", Some("C"), Some("2024-02-01")),
    ];
    let index = generator.generate_index(&pages);
    assert_eq!(
        index,
        "#+TITLE: journal\n\n\
         - [[file:b.html][B]]\n\
         - [[file:c.html][C]]\n\
         - [[file:a.html][A]]\n"
    );
}

#[test]
fn discovery_order_is_kept_without_recent_first() {
    let mut proj = project();
    proj.recent_first = false;
    let generator = SitemapGenerator::new(&proj);
    let pages = vec![
        page("a.html", Some("A"), Some("2024-01-01")),
        page("b.html", Some("B"), Some("2024-03-01")),
    ];
    let index = generator.generate_index(&pages);
    assert_eq!(
        index,
        "#+TITLE: journal\n\n- [[file:a.html][A]]\n- [[file:b.html][B]]\n"
    );
}

#[test]
fn equal_dates_keep_discovery_order() {
    let generator = SitemapGenerator::new(&project());
    let pages = vec![
        page("first.html", Some("First"), Some("2024-05-05")),
        page("second.html", Some("Second"), Some("2024-05-05")),
    ];
    let index = generator.generate_index(&pages);
    let first = index.find("first.html").unwrap();
    let second = index.find("second.html").unwrap();
    assert!(first < second);
}

#[test]
fn undated_pages_sink_below_dated_ones() {
    let generator = SitemapGenerator::new(&project());
    let pages = vec![
        page("undated.html", Some("U"), None),
        page("dated.html", Some("D"), Some("2001-01-01")),
    ];
    let index = generator.generate_index(&pages);
    assert!(index.find("dated.html").unwrap() < index.find("undated.html").unwrap());
}

#[test]
fn untitled_pages_are_listed_by_file_name() {
    let mut proj = project();
    proj.recent_first = false;
    let generator = SitemapGenerator::new(&proj);
    let pages = vec![page("bare.html", None, None)];
    let index = generator.generate_index(&pages);
    assert_eq!(index, "#+TITLE: journal\n\n- [[file:bare.html][bare.html]]\n");
}

#[test]
fn sitemap_settings_fall_back_to_defaults() {
    let generator = SitemapGenerator::new(&project());
    assert_eq!(generator.title, "journal");
    assert_eq!(generator.filename, "sitemap.org");
    let mut named = project();
    named.sitemap_title = Some("All posts".to_string());
    named.sitemap_filename = Some("index.org".to_string());
    let generator = SitemapGenerator::new(&named);
    assert_eq!(generator.title, "All posts");
    assert_eq!(generator.filename, "index.org");
}

#[test]
fn sitemap_exports_through_the_document_path() {
    let generator = SitemapGenerator::new(&project());
    let pages = vec![page("a.html", Some("A"), Some("2024-01-01"))];
    let exported = generator.export(&path(true, &["out"]), &pages);
    assert_eq!(exported.dest.to_text(), "/out/sitemap.html");
    assert_eq!(exported.page.file_name, "sitemap.html");
    assert!(exported.html.starts_with("<main>"));
    assert_eq!(count(&exported.html, "A</a>"), 1);
}

#[test]
fn feed_lists_articles_once_in_insertion_order() {
    let mut feed = RssGenerator::new(&project());
    feed.add_article("Second of March", Some("b"), "2024-03-01").unwrap();
    feed.add_article("First of January", None, "2024-01-01").unwrap();
    let xml = feed.generate().unwrap();
    assert_eq!(count(&xml, "Second of March"), 1);
    assert_eq!(count(&xml, "First of January"), 1);
    assert!(xml.find("Second of March").unwrap() < xml.find("First of January").unwrap());
    assert_eq!(count(&xml, "<title>journal</title>"), 1);
    assert_eq!(count(&xml, "https://example.net"), 1);
    assert_eq!(count(&xml, "<rss"), 1);
}

#[test]
fn second_generate_call_is_a_contract_violation() {
    let mut feed = RssGenerator::new(&project());
    feed.add_article("One", None, "2024-01-01").unwrap();
    let first = feed.generate();
    assert!(first.is_ok());
    let second = feed.generate();
    assert!(matches!(second, Err(AggregationError::ContractViolation)));
}

#[test]
fn adding_after_finalization_is_a_contract_violation() {
    let mut feed = RssGenerator::new(&project());
    feed.generate().unwrap();
    let r = feed.add_article("Late", None, "2024-01-01");
    assert!(matches!(r, Err(AggregationError::ContractViolation)));
}

#[test]
fn feed_without_link_or_description_serializes() {
    let mut bare = project();
    bare.link_home = None;
    bare.description = None;
    let mut feed = RssGenerator::new(&bare);
    feed.add_article("Only", None, "2024-01-01").unwrap();
    let xml = feed.generate().unwrap();
    assert_eq!(count(&xml, "Only"), 1);
}

#[test]
fn dispatcher_routes_actions_to_their_transformers() {
    let listing = Vec::new();
    let root = path(true, &[]);
    let render = builder_for_project(&project(), &root, path(true, &["src"]), &listing).unwrap();
    assert!(matches!(render, ProjectBuild::Render(_)));
    let mut copying = project();
    copying.publish_action = PublishAction::Attachment;
    let copy = builder_for_project(&copying, &root, path(true, &["src"]), &listing).unwrap();
    assert!(matches!(copy, ProjectBuild::Copy(_)));
}

#[test]
fn the_default_action_is_copying() {
    assert!(matches!(PublishAction::default(), PublishAction::Attachment));
    let site = borg::Site { projects: vec![project()] };
    assert_eq!(site.projects.len(), 1);
}
