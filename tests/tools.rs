use rust_builder::crate_info::{CrateInfoProvider, DependencyEntry, IndexEntry};
use rust_builder::paths::RustPaths;
use rust_builder::patterns::McpPatterns;
use rust_builder::surgeon::{collapse_whitespace, to_crlf, FileSurgeon, PatchPlan};

fn entry(vers: &str, yanked: bool, deps: &[(&str, bool)]) -> IndexEntry {
    IndexEntry {
        name: "serde".to_string(),
        vers: vers.to_string(),
        deps: deps
            .iter()
            .map(|(n, o)| DependencyEntry { name: n.to_string(), optional: *o })
            .collect(),
        yanked,
    }
}

#[test]
fn test_get_crate_info() {
    let provider = CrateInfoProvider::new("/registry".to_string());
    let entries = vec![
        entry("1.0.100", false, &[("serde_derive", true)]),
        entry("1.0.200", false, &[("serde_derive", true), ("core_shim", false)]),
        entry("1.0.300", true, &[]),
    ];
    if let Some(info) = provider.get_crate_info("serde", entries) {
        println!("Found serde: v{}", info.version);
        println!("  Description: {:?}", info.description);
        println!("  Dependencies: {:?}", info.dependencies);
        assert_eq!(info.version, "1.0.200");
        assert_eq!(info.dependencies, vec!["core_shim"]);
        assert_eq!(info.documentation.as_deref(), Some("https://docs.rs/serde"));
    } else {
        panic!("serde nicht im lokalen Cache gefunden");
    }
}

#[test]
fn crate_info_is_none_when_all_versions_are_yanked() {
    let provider = CrateInfoProvider::new("/registry".to_string());
    assert!(provider.get_crate_info("serde", vec![entry("1.0.0", true, &[])]).is_none());
    assert!(provider.get_crate_info("serde", Vec::new()).is_none());
}

#[test]
fn newest_version_is_chosen_as_text_and_first_on_ties() {
    let provider = CrateInfoProvider::new(String::new());
    assert!(provider.is_newer_version("1.0.9", "1.0.10"));
    assert!(!provider.is_newer_version("1.0.10", "1.0.9"));
    assert!(!provider.is_newer_version("1.0.0", "1.0.0"));
    assert!(provider.is_newer_version("1.0.0-beta", "1.0.0"));
    let entries = vec![
        entry("2.0.0", false, &[("first", false)]),
        entry("2.0.0", false, &[("second", false)]),
    ];
    let info = provider.get_crate_info("serde", entries).unwrap();
    assert_eq!(info.dependencies, vec!["first"]);
}

#[test]
fn index_location_follows_name_length() {
    let provider = CrateInfoProvider::new(String::new());
    assert_eq!(provider.index_location("a"), vec!["1", "a"]);
    assert_eq!(provider.index_location("ab"), vec!["2", "ab"]);
    assert_eq!(provider.index_location("abc"), vec!["3", "a", "abc"]);
    assert_eq!(provider.index_location("serde"), vec!["se", "rd", "serde"]);
}

#[test]
fn status_report_lists_each_path() {
    let found = RustPaths {
        docs_path: Some("/r/docs".to_string()),
        cargo_registry: Some("/c/registry".to_string()),
        rustup_home: Some("/r".to_string()),
    };
    assert!(found.has_docs());
    assert_eq!(
        found.status_report(),
        "Rust Installation Status:\n  RUSTUP_HOME: /r\n  Rust Docs: /r/docs\n  Cargo Registry: /c/registry\n"
    );
    let none = RustPaths { docs_path: None, cargo_registry: None, rustup_home: None };
    assert!(!none.has_docs());
    assert_eq!(
        none.status_report(),
        "Rust Installation Status:\n  RUSTUP_HOME: NOT FOUND\n  Rust Docs: NOT INSTALLED (run: rustup component add rust-docs)\n  Cargo Registry: NOT FOUND\n"
    );
}

#[test]
fn templates_by_topic() {
    let p = McpPatterns::new();
    assert!(p.get_template("tool").starts_with("\n// PATTERN: Defining an MCP Tool"));
    assert!(p.get_template("prompt").starts_with("\n// PATTERN: Defining an MCP Prompt"));
    assert!(p.get_template("resource").contains("ServerHandler"));
    assert!(p.get_template("server_setup").contains("serve((stdin(), stdout()))"));
    assert_eq!(
        p.get_template("other"),
        "Topic not found. Available: 'tool', 'prompt', 'resource', 'server_setup'"
    );
}

#[test]
fn whitespace_runs_collapse() {
    assert_eq!(collapse_whitespace("  fn  main()\n\t{ x }  "), "fn main() { x }");
    assert_eq!(collapse_whitespace(" \n "), "");
    assert_eq!(collapse_whitespace("one"), "one");
}

#[test]
fn near_misses_are_found_ignoring_whitespace() {
    let s = FileSurgeon::new();
    let content = "fn main() {\n    let x = 1;\n}\n";
    assert!(s.matches_ignoring_whitespace(content, "let x = 1;"));
    assert!(s.matches_ignoring_whitespace(content, "{\n  let   x = 1;\n}"));
    assert!(!s.matches_ignoring_whitespace(content, "let y = 1;"));
}

#[test]
fn patch_replaces_the_first_occurrence_and_counts_all() {
    let s = FileSurgeon::new();
    match s.plan_patch("a x b x c x", "x", "yy") {
        PatchPlan::Write { content, occurrences } => {
            assert_eq!(content, "a yy b x c x");
            assert_eq!(occurrences, 3);
        }
        _ => panic!("expected a write"),
    }
    match s.plan_patch("aaaa", "aa", "b") {
        PatchPlan::Write { content, occurrences } => {
            assert_eq!(content, "baa");
            assert_eq!(occurrences, 2);
        }
        _ => panic!("expected a write"),
    }
}

#[test]
fn patch_follows_windows_line_endings() {
    let s = FileSurgeon::new();
    match s.plan_patch("one\r\ntwo\r\nthree", "one\ntwo", "1\r\n2") {
        PatchPlan::Write { content, occurrences } => {
            assert_eq!(content, "1\r\n2\r\nthree");
            assert_eq!(occurrences, 1);
        }
        _ => panic!("expected a write"),
    }
    assert_eq!(to_crlf("a\nb\n"), "a\r\nb\r\n");
}

#[test]
fn patch_reports_near_misses_and_absence() {
    let s = FileSurgeon::new();
    let content = "fn main() {\n    let x = 1;\n}\n";
    assert!(matches!(s.plan_patch(content, "{\nlet x = 1;\n}", "z"), PatchPlan::NearMiss));
    assert!(matches!(s.plan_patch(content, "let y", "z"), PatchPlan::NotFound));
}
