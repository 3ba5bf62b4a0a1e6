//! Where the Rust installation keeps its documentation and its crate registry.
use vstd::prelude::*;
use vstd::string::StringExecFns;

verus! {

/// First line of the status report.
pub const STATUS_HEADER: &'static str = "Rust Installation Status:\n";

/// Shown for a directory that was not found.
pub const NOT_FOUND: &'static str = "NOT FOUND";

/// Shown when the documentation is not installed.
pub const DOCS_MISSING: &'static str = "NOT INSTALLED (run: rustup component add rust-docs)";

/// The paths found on this machine, if any.
pub struct RustPaths {
    pub docs_path: Option<String>,
    pub cargo_registry: Option<String>,
    pub rustup_home: Option<String>,
}

/// The path, or the text that stands for its absence.
pub open spec fn shown(p: Option<String>, absent: Seq<char>) -> Seq<char> {
    match p {
        Some(s) => s@,
        None => absent,
    }
}

/// One line of the report: label, value, line break.
pub open spec fn report_line(label: Seq<char>, value: Seq<char>) -> Seq<char> {
    label + value + "\n"@
}

/// The text of the status report.
pub open spec fn report_of(p: RustPaths) -> Seq<char> {
    STATUS_HEADER@ + report_line("  RUSTUP_HOME: "@, shown(p.rustup_home, NOT_FOUND@))
        + report_line("  Rust Docs: "@, shown(p.docs_path, DOCS_MISSING@)) + report_line(
        "  Cargo Registry: "@,
        shown(p.cargo_registry, NOT_FOUND@),
    )
}

fn show(p: &Option<String>, absent: &str) -> (r: String)
    ensures
        r@ == shown(*p, absent@),
{
    match p {
        Some(s) => s.clone(),
        None => absent.to_owned(),
    }
}

impl RustPaths {
    /// Whether the documentation was found.
    pub fn has_docs(&self) -> (r: bool)
        ensures
            r == self.docs_path is Some,
    {
        self.docs_path.is_some()
    }

    /// A report of what was found, one line per directory.
    pub fn status_report(&self) -> (r: String)
        ensures
            r@ == report_of(*self),
    {
        let report = STATUS_HEADER.to_owned();
        let report = report.concat("  RUSTUP_HOME: ").concat(show(&self.rustup_home, NOT_FOUND).as_str()).concat("\n");
        let report = report.concat("  Rust Docs: ").concat(show(&self.docs_path, DOCS_MISSING).as_str()).concat("\n");
        let report = report.concat("  Cargo Registry: ").concat(show(&self.cargo_registry, NOT_FOUND).as_str()).concat("\n");
        assert(report@ =~= report_of(*self));
        report
    }
}

} // verus!
