use borg::attachment::AttachmentsHandler;
use borg::discovery::{DirSettings, RawEntry};
use borg::order::str_lex_lt;
use borg::paths::{strip_prefix, SysPath};
use borg::text::{html_name, parse_date_key, trim};
use borg::{DiscoveryError, PathError, Project, PublishAction};

fn path(absolute: bool, parts: &[&str]) -> SysPath {
    SysPath {
        absolute,
        parts: parts.iter().map(|s| s.to_string()).collect(),
    }
}

fn raw(parts: &[&str], is_file: bool) -> RawEntry {
    RawEntry {
        rel: path(false, parts),
        is_file,
    }
}

fn project(parts: &[&str]) -> Project {
    Project {
        name: "site".to_string(),
        description: None,
        base_directory: path(true, parts),
        base_extension: None,
        recursive: false,
        publishing_directory: path(true, &["out"]),
        exclude: Vec::new(),
        auto_sitemap: false,
        sitemap_filename: None,
        sitemap_title: None,
        recent_first: false,
        link_home: None,
        link_up: None,
        html_head: None,
        html_preamble: None,
        html_postamble: None,
        publish_action: PublishAction::Attachment,
    }
}

fn discover(
    listing: Vec<RawEntry>,
    filter: Option<&str>,
    excluded: &[&str],
    recursive: bool,
) -> Result<Vec<String>, DiscoveryError> {
    let root = path(true, &["src"]);
    let filter = filter.map(|s| s.to_string());
    let excluded: Vec<String> = excluded.iter().map(|s| s.to_string()).collect();
    let found = borg::discovery::get_source_entries(&listing, &root, &filter, &excluded, recursive)?;
    Ok(found.iter().map(|e| e.path.to_text()).collect())
}

#[test]
fn hidden_entries_are_pruned() {
    let listing = vec![
        raw(&["a.org"], true),
        raw(&[".hidden.org"], true),
        raw(&[".git"], false),
        raw(&[".git", "config.org"], true),
    ];
    let found = discover(listing, None, &[], true).unwrap();
    assert_eq!(found, vec!["/src/a.org".to_string()]);
}

#[test]
fn non_recursive_discovery_stays_one_level_deep() {
    let listing = vec![
        raw(&["top.org"], true),
        raw(&["sub"], false),
        raw(&["sub", "deep.org"], true),
    ];
    let found = discover(listing, None, &[], false).unwrap();
    assert_eq!(found, vec!["/src/top.org".to_string()]);
}

#[test]
fn recursive_discovery_descends() {
    let listing = vec![
        raw(&["top.org"], true),
        raw(&["sub"], false),
        raw(&["sub", "deep.org"], true),
    ];
    let found = discover(listing, None, &[], true).unwrap();
    assert_eq!(
        found,
        vec!["/src/sub/deep.org".to_string(), "/src/top.org".to_string()]
    );
}

#[test]
fn extension_filter_keeps_matching_files_only() {
    let listing = vec![
        raw(&["a.org"], true),
        raw(&["b.txt"], true),
        raw(&["notes.txt"], false),
        raw(&["notes.txt", "c.org"], true),
    ];
    let found = discover(listing, Some("org"), &[], true).unwrap();
    // the directory is descended although its own name misses the filter
    assert_eq!(
        found,
        vec!["/src/a.org".to_string(), "/src/notes.txt/c.org".to_string()]
    );
}

#[test]
fn directories_are_never_emitted() {
    let listing = vec![raw(&["dir.org"], false), raw(&["dir.org", "x.txt"], true)];
    let found = discover(listing, None, &[], true).unwrap();
    assert_eq!(found, vec!["/src/dir.org/x.txt".to_string()]);
}

#[test]
fn excluded_subtrees_are_pruned_whole() {
    let listing = vec![
        raw(&["keep.org"], true),
        raw(&["skip"], false),
        raw(&["skip", "inner.org"], true),
    ];
    let found = discover(listing, None, &["*skip*"], true).unwrap();
    assert_eq!(found, vec!["/src/keep.org".to_string()]);
}

#[test]
fn excluded_file_is_dropped() {
    let listing = vec![raw(&["a.org"], true), raw(&["draft.org"], true)];
    let found = discover(listing, None, &["*draft*"], true).unwrap();
    assert_eq!(found, vec!["/src/a.org".to_string()]);
}

#[test]
fn exclude_patterns_are_trimmed() {
    let listing = vec![raw(&["a.org"], true), raw(&["draft.org"], true)];
    let found = discover(listing, None, &["  *draft* \n"], true).unwrap();
    assert_eq!(found, vec!["/src/a.org".to_string()]);
}

#[test]
fn discovered_entries_come_back_sorted_by_path() {
    let listing = vec![
        raw(&["zeta.org"], true),
        raw(&["alpha.org"], true),
        raw(&["mid.org"], true),
    ];
    let found = discover(listing, None, &[], false).unwrap();
    assert_eq!(
        found,
        vec![
            "/src/alpha.org".to_string(),
            "/src/mid.org".to_string(),
            "/src/zeta.org".to_string()
        ]
    );
}

#[test]
fn bad_exclude_pattern_is_reported() {
    let listing = vec![raw(&["a.org"], true)];
    let r = discover(listing, None, &["["], false);
    assert!(matches!(r, Err(DiscoveryError::BadPattern { .. })));
}

#[test]
fn bad_include_pattern_is_reported() {
    let listing = vec![raw(&["a.org"], true)];
    let r = discover(listing, Some("a{"), &[], false);
    assert!(matches!(r, Err(DiscoveryError::BadPattern { .. })));
}

#[test]
fn extension_filter_is_an_extension_not_a_full_path() {
    // the filter names an extension: a file whose name ends in `.org` is
    // kept, one merely named `org` is not
    let listing = vec![
        raw(&["a.org"], true),
        raw(&["org"], true),
        raw(&["b.txt"], true),
    ];
    let found = discover(listing, Some("org"), &[], false).unwrap();
    assert_eq!(found, vec!["/src/a.org".to_string()]);
}

#[test]
fn extension_filter_is_trimmed() {
    let listing = vec![raw(&["a.org"], true), raw(&["b.txt"], true)];
    let found = discover(listing, Some("  org 
"), &[], false).unwrap();
    assert_eq!(found, vec!["/src/a.org".to_string()]);
}

#[test]
fn dir_settings_resolve_directories_against_root() {
    let listing = vec![raw(&["a.org"], true)];
    let mut proj = project(&["src"]);
    proj.base_directory = path(false, &["content"]);
    proj.publishing_directory = path(false, &["public"]);
    let root = path(true, &["home", "site"]);
    let ds = DirSettings::new_from_project(&proj, &root, path(true, &["home", "site", "content"]), &listing)
        .unwrap();
    assert_eq!(ds.publish_dir.to_text(), "/home/site/public");
    assert_eq!(ds.source_dir.to_text(), "/home/site/content");
    assert_eq!(ds.files.len(), 1);
}

#[test]
fn copy_plan_mirrors_relative_structure() {
    let listing = vec![raw(&["notes", "a.org"], true), raw(&["b.org"], true)];
    let mut proj = project(&["src"]);
    proj.recursive = true;
    let root = path(true, &[]);
    let handler =
        AttachmentsHandler::from_project(&proj, &root, path(true, &["src"]), &listing).unwrap();
    assert_eq!(handler.dir_settings.files.len(), 2);
    // canonical paths equal the discovered paths: no symlinks involved
    let canonicals: Vec<SysPath> = handler
        .dir_settings
        .files
        .iter()
        .map(|e| SysPath {
            absolute: e.path.absolute,
            parts: e.path.parts.clone(),
        })
        .collect();
    let plan = handler.build(&canonicals).unwrap();
    assert_eq!(plan.len(), 2);
    assert_eq!(plan[0].source.to_text(), "/src/b.org");
    assert_eq!(plan[0].dest.to_text(), "/out/b.org");
    assert_eq!(plan[0].dest_dir.to_text(), "/out");
    assert_eq!(plan[1].source.to_text(), "/src/notes/a.org");
    assert_eq!(plan[1].dest.to_text(), "/out/notes/a.org");
    assert_eq!(plan[1].dest_dir.to_text(), "/out/notes");
}

#[test]
fn escaping_entry_aborts_the_copy_plan() {
    let listing = vec![raw(&["link.org"], true)];
    let proj = project(&["src"]);
    let root = path(true, &[]);
    let handler =
        AttachmentsHandler::from_project(&proj, &root, path(true, &["src"]), &listing).unwrap();
    // the symlinked entry's canonical target lies outside the source root
    let canonicals = vec![path(true, &["elsewhere", "target.org"])];
    let r = handler.build(&canonicals);
    assert!(matches!(r, Err(PathError::Escape { .. })));
}

#[test]
fn strip_prefix_relativizes_contained_paths() {
    let entry = path(true, &["src", "sub", "a.org"]);
    let root = path(true, &["src"]);
    let rel = strip_prefix(&entry, &root).unwrap();
    assert!(!rel.absolute);
    assert_eq!(rel.to_text(), "sub/a.org");
}

#[test]
fn strip_prefix_rejects_outside_paths() {
    let entry = path(true, &["other", "a.org"]);
    let root = path(true, &["src"]);
    assert!(strip_prefix(&entry, &root).is_none());
}

#[test]
fn join_and_to_text_compose_paths() {
    let root = path(true, &["a"]);
    let rel = path(false, &["b", "c"]);
    assert_eq!(root.join(&rel).to_text(), "/a/b/c");
    assert_eq!(rel.to_text(), "b/c");
    assert_eq!(path(true, &[]).to_text(), "/");
}

#[test]
fn hidden_components_are_detected() {
    assert!(path(false, &["a", ".b", "c"]).has_hidden_component());
    assert!(!path(false, &["a", "b."]).has_hidden_component());
}

#[test]
fn trim_strips_ascii_whitespace() {
    assert_eq!(trim("  *.org \n"), "*.org");
    assert_eq!(trim("x"), "x");
    assert_eq!(trim(" \t "), "");
}

#[test]
fn html_name_replaces_the_last_extension() {
    assert_eq!(html_name("post.org"), "post.html");
    assert_eq!(html_name("README"), "README.html");
    assert_eq!(html_name("a.tar.gz"), "a.tar.html");
}

#[test]
fn lexicographic_order_on_strings() {
    assert!(str_lex_lt("a", "b"));
    assert!(str_lex_lt("a", "ab"));
    assert!(!str_lex_lt("ab", "a"));
    assert!(!str_lex_lt("same", "same"));
    assert!(str_lex_lt("alpha.org", "zeta.org"));
}

#[test]
fn dispatch_reports_bad_patterns() {
    let mut proj = project(&["src"]);
    proj.exclude = vec!["[".to_string()];
    let r = borg::builder_for_project(&proj, &path(true, &[]), path(true, &["src"]), &Vec::new());
    assert!(matches!(r, Err(DiscoveryError::BadPattern { .. })));
}

#[test]
fn date_keys_order_dates() {
    assert_eq!(parse_date_key("2024-01-01"), Some(20240101));
    assert_eq!(parse_date_key("2024-03-01"), Some(20240301));
    assert_eq!(parse_date_key("2024-1-1"), None);
    assert_eq!(parse_date_key("yesterday"), None);
    assert!(parse_date_key("2024-03-01").unwrap() > parse_date_key("2024-01-31").unwrap());
}
