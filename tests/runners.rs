use rust_builder::outline::{FieldLine, OutlineItem};
use rust_builder::project::{ProjectManager, TreeEntry};
use rust_builder::tools::{
    CargoChecker, DependencyManager, ErrorExplainer, GitController, RawDiagnostic, SymbolAnalyzer,
    TestRunner,
};

fn entry(path: &str, name: &str, is_dir: bool) -> TreeEntry {
    TreeEntry {
        relative_path: path.to_string(),
        depth: if path.is_empty() { 0 } else { path.split('/').count() },
        name: name.to_string(),
        is_dir,
    }
}

#[test]
fn tree_shows_entries_and_skips_ignored_directories() {
    let pm = ProjectManager::new();
    let entries = vec![
        entry("", "proj", true),
        entry("Cargo.toml", "Cargo.toml", false),
        entry("src", "src", true),
        entry("src/main.rs", "main.rs", false),
        entry("target", "target", true),
        entry("target/debug", "debug", true),
    ];
    assert_eq!(
        pm.render_structure(&entries),
        "|-- Cargo.toml\n|-- src/\n    |-- main.rs\n|-- target/ (skipped)\n"
    );
}

#[test]
fn empty_tree_has_a_note() {
    let pm = ProjectManager::new();
    assert_eq!(pm.render_structure(&vec![entry("", "proj", true)]), "Directory is empty or path is invalid.");
    assert_eq!(pm.render_structure(&Vec::new()), "Directory is empty or path is invalid.");
}

fn raw(reason: &str, level: Option<&str>, message: &str) -> RawDiagnostic {
    RawDiagnostic {
        reason: Some(reason.to_string()),
        has_message: true,
        level: level.map(|l| l.to_string()),
        message: Some(message.to_string()),
        file: Some("src/lib.rs".to_string()),
        line: Some(3),
        code: Some("E0308".to_string()),
    }
}

#[test]
fn check_keeps_errors_and_warnings() {
    let c = CargoChecker::new();
    let records = vec![
        raw("compiler-artifact", Some("error"), "artifact"),
        raw("compiler-message", Some("error"), "mismatched types"),
        raw("compiler-message", Some("note"), "a note"),
        raw("compiler-message", None, "no level"),
        raw("compiler-message", Some("warning"), "unused"),
    ];
    let r = c.summarize(&records, false, "ignored".to_string());
    assert!(!r.success);
    assert_eq!(r.messages.len(), 2);
    assert_eq!(r.messages[0].message, "mismatched types");
    assert_eq!(r.messages[0].code.as_deref(), Some("E0308"));
    assert_eq!(r.messages[0].line, Some(3));
    assert_eq!(r.messages[1].level, "warning");
}

#[test]
fn failed_check_without_diagnostics_reports_stderr() {
    let c = CargoChecker::new();
    let r = c.summarize(&Vec::new(), false, "could not find Cargo.toml".to_string());
    assert_eq!(r.messages.len(), 1);
    assert_eq!(r.messages[0].level, "error");
    assert_eq!(r.messages[0].message, "could not find Cargo.toml");
    assert_eq!(r.messages[0].file.as_deref(), Some("Cargo.toml"));
    assert!(c.summarize(&Vec::new(), true, String::new()).messages.is_empty());
}

#[test]
fn error_codes_are_validated() {
    let e = ErrorExplainer::new();
    assert!(e.refusal("E0308").is_none());
    assert_eq!(
        e.refusal("rm -rf").unwrap(),
        "Invalid error code format: 'rm -rf'. Expected format like 'E0308'."
    );
    assert!(e.refusal("E030").is_some());
    assert!(e.refusal("E03081").is_some());
    assert_eq!(
        e.explanation("E9999", None),
        "No explanation found for E9999. It might not be a standard rustc error code."
    );
    assert_eq!(e.explanation("E0308", Some("text".to_string())), "text");
}

#[test]
fn features_are_joined_by_commas() {
    let d = DependencyManager::new();
    assert_eq!(d.features_arg(&Some(vec!["macros".to_string(), "rt".to_string()])).as_deref(), Some("macros,rt"));
    assert_eq!(d.features_arg(&Some(vec!["full".to_string()])).as_deref(), Some("full"));
    assert!(d.features_arg(&Some(Vec::new())).is_none());
    assert!(d.features_arg(&None).is_none());
}

#[test]
fn test_runner_filter_and_report() {
    let t = TestRunner::new();
    assert_eq!(t.effective_filter(Some("tests::a".to_string())).as_deref(), Some("tests::a"));
    assert!(t.effective_filter(Some("   ".to_string())).is_none());
    assert!(t.effective_filter(None).is_none());
    assert_eq!(
        t.report(true, "ok", "warn"),
        "Tests passed!\n\n=== STDOUT ===\nok\n=== STDERR ===\nwarn"
    );
    assert!(t.report(false, "", "").starts_with("Tests failed."));
}

#[test]
fn git_report_trims_output() {
    let g = GitController::new();
    assert_eq!(g.report(true, "  M src/lib.rs\n", ""), "M src/lib.rs");
    assert_eq!(g.report(false, "", "fatal: bad\n"), "Git Error: fatal: bad");
}

#[test]
fn outline_lists_items_without_bodies() {
    let items = vec![
        OutlineItem::Struct {
            vis: "pub ".to_string(),
            name: "Point".to_string(),
            fields: vec![
                FieldLine { name: Some("x".to_string()), ty: "i32".to_string() },
                FieldLine { name: None, ty: "u8".to_string() },
            ],
        },
        OutlineItem::Enum { vis: String::new(), name: "E".to_string(), variants: vec!["A".to_string(), "B".to_string()] },
        OutlineItem::Function { vis: "pub ".to_string(), signature: "fn f(x: u8) -> u8".to_string() },
        OutlineItem::Impl {
            trait_part: "Clone for ".to_string(),
            self_ty: "Point".to_string(),
            methods: vec!["fn clone(self) -> Self".to_string()],
        },
        OutlineItem::Module { vis: "pub(crate) ".to_string(), name: "m".to_string() },
    ];
    assert_eq!(
        SymbolAnalyzer::new().outline("src/a.rs", &items),
        "// OUTLINE: src/a.rs\n\npub struct Point {\n    x: i32,\n}\n\nenum E {\n    A,\n    B,\n}\n\npub fn f(x: u8) -> u8;\n\nimpl Clone for Point {\n    fn clone(self) -> Self;\n}\n\npub(crate) mod m;\n"
    );
    assert_eq!(SymbolAnalyzer::new().outline("e.rs", &Vec::new()), "// OUTLINE: e.rs\n");
}

#[test]
fn polisher_reports() {
    let p = rust_builder::tools::CodePolisher::new();
    assert_eq!(p.fmt_report(true, "x"), "Code formatted successfully.");
    assert_eq!(p.fmt_report(false, "bad"), "❌ Format failed: bad");
    assert_eq!(p.clippy_report(true, ""), "Clippy is happy. No issues found.");
    assert_eq!(p.clippy_report(false, "warning: x"), "Clippy Suggestions:\nwarning: x");
}

#[test]
fn scaffold_source_and_registration() {
    let s = rust_builder::tools::McpToolScaffolder::new();
    let src = s.tool_source("WeatherChecker");
    assert!(src.starts_with("use anyhow::{Context, Result};\n\npub struct WeatherChecker;\n\nimpl WeatherChecker {\n"));
    assert!(src.contains("Ok(format!(\"Processed: {}\", input))"));
    assert_eq!(
        s.registration("pub mod other;\n", "weather_checker", "WeatherChecker").as_deref(),
        Some("\npub mod weather_checker;\npub use weather_checker::WeatherChecker;\n")
    );
    assert!(s.registration("pub mod weather_checker;\n", "weather_checker", "WeatherChecker").is_none());
}
