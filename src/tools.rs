//! The tools that wrap outside programs. What they do is running a program and reporting
//! its output; the library holds them and the parts of their work that are plain logic.
use vstd::prelude::*;
use vstd::string::StringExecFns;
use crate::text::{contains, has_infix, trim, trim_of};

verus! {

/// What regex's `Regex::is_match` says of `text` for `pattern`; false when the pattern does
/// not compile.
pub uninterp spec fn regex_accepts(pattern: Seq<char>, text: Seq<char>) -> bool;

/// Relies on regex's `Regex::new` and `Regex::is_match`: whether the compiled pattern
/// matches somewhere in `text`, false when the pattern does not compile. It depends on the
/// two strings alone.
#[verifier::external_body]
fn regex_is_match(pattern: &str, text: &str) -> (r: bool)
    ensures
        r == regex_accepts(pattern@, text@),
{
    match regex::Regex::new(pattern) {
        Ok(re) => re.is_match(text),
        Err(_) => false,
    }
}

/// The view of an optional string.
pub open spec fn opt_view(o: Option<String>) -> Option<Seq<char>> {
    match o {
        Some(s) => Some(s@),
        None => None,
    }
}

fn clone_opt(o: &Option<String>) -> (r: Option<String>)
    ensures
        opt_view(r) == opt_view(*o),
{
    match o {
        Some(s) => Some(s.clone()),
        None => None,
    }
}

/// Outlines the items of a Rust source file.
pub struct SymbolAnalyzer;

/// The file that `SymbolAnalyzer` outlines.
pub struct AnalyzeRequest {
    pub path: String,
}

/// Runs `cargo check` and gathers its diagnostics.
pub struct CargoChecker;

/// One diagnostic of the compiler.
pub struct CompilerMessage {
    pub level: String,
    pub message: String,
    pub file: Option<String>,
    pub line: Option<usize>,
    pub code: Option<String>,
}

/// The outcome of `cargo check`.
pub struct CheckResult {
    pub success: bool,
    pub messages: Vec<CompilerMessage>,
}

/// The fields of one JSON line that `cargo check --message-format=json` printed.
pub struct RawDiagnostic {
    /// The line's "reason".
    pub reason: Option<String>,
    /// Whether the line has a "message" object; the fields below are read from it.
    pub has_message: bool,
    pub level: Option<String>,
    pub message: Option<String>,
    /// File and first line of the first span.
    pub file: Option<String>,
    pub line: Option<usize>,
    /// The "code" of the "code" object.
    pub code: Option<String>,
}

pub open spec fn message_view(m: CompilerMessage) -> (
    Seq<char>,
    Seq<char>,
    Option<Seq<char>>,
    Option<usize>,
    Option<Seq<char>>,
) {
    (m.level@, m.message@, opt_view(m.file), m.line, opt_view(m.code))
}

pub open spec fn message_views(ms: Seq<CompilerMessage>) -> Seq<
    (Seq<char>, Seq<char>, Option<Seq<char>>, Option<usize>, Option<Seq<char>>),
> {
    ms.map_values(|m: CompilerMessage| message_view(m))
}

/// The level of a diagnostic, "unknown" when it has none.
pub open spec fn level_of(d: RawDiagnostic) -> Seq<char> {
    match d.level {
        Some(l) => l@,
        None => "unknown"@,
    }
}

/// Whether a line is a compiler error or warning.
pub open spec fn is_reported(d: RawDiagnostic) -> bool {
    &&& d.reason matches Some(x) && x@ == "compiler-message"@
    &&& d.has_message
    &&& (level_of(d) == "error"@ || level_of(d) == "warning"@)
}

/// The message that a reported line gives.
pub open spec fn reported_view(d: RawDiagnostic) -> (
    Seq<char>,
    Seq<char>,
    Option<Seq<char>>,
    Option<usize>,
    Option<Seq<char>>,
) {
    (
        level_of(d),
        match d.message {
            Some(m) => m@,
            None => Seq::empty(),
        },
        opt_view(d.file),
        d.line,
        opt_view(d.code),
    )
}

/// The messages of the reported lines, in order.
pub open spec fn reported(ds: Seq<RawDiagnostic>) -> Seq<
    (Seq<char>, Seq<char>, Option<Seq<char>>, Option<usize>, Option<Seq<char>>),
>
    decreases ds.len(),
{
    if ds.len() == 0 {
        Seq::empty()
    } else if is_reported(ds.last()) {
        reported(ds.drop_last()).push(reported_view(ds.last()))
    } else {
        reported(ds.drop_last())
    }
}

/// The text of the test report.
pub open spec fn test_report(success: bool, stdout: Seq<char>, stderr: Seq<char>) -> Seq<char> {
    (if success {
        "Tests passed!"@
    } else {
        "Tests failed."@
    }) + "\n\n=== STDOUT ===\n"@ + stdout + "\n=== STDERR ===\n"@ + stderr
}

/// The names joined by commas.
pub open spec fn comma_list(names: Seq<Seq<char>>) -> Seq<char>
    decreases names.len(),
{
    if names.len() == 0 {
        Seq::empty()
    } else if names.len() == 1 {
        names[0]
    } else {
        comma_list(names.drop_last()) + ","@ + names.last()
    }
}

/// Adds dependencies with `cargo add`.
pub struct DependencyManager;

/// Explains compiler error codes with `rustc --explain`.
pub struct ErrorExplainer;

/// Formats and lints with `cargo fmt` and `cargo clippy`.
pub struct CodePolisher;

/// Runs git in a project.
pub struct GitController;

/// Creates the skeleton of a new tool.
pub struct McpToolScaffolder;

/// Runs `cargo test`.
pub struct TestRunner;

impl SymbolAnalyzer {
    pub fn new() -> Self {
        SymbolAnalyzer
    }

    /// The outline of the file at `path` whose items are `items`: a header line, then each
    /// item after an empty line.
    pub fn outline(&self, path: &str, items: &Vec<crate::outline::OutlineItem>) -> (r: String)
        ensures
            r@ == "// OUTLINE: "@ + path@ + "\n"@ + crate::outline::items_text(items@),
    {
        crate::outline::render_outline(path, items)
    }
}

impl CargoChecker {
    pub fn new() -> Self {
        CargoChecker
    }

    /// The result of a run: its errors and warnings, in order; when the run failed and
    /// none was reported, one error that carries what cargo printed on stderr.
    pub fn summarize(&self, records: &Vec<RawDiagnostic>, success: bool, stderr: String) -> (r: CheckResult)
        ensures
            r.success == success,
            !success && reported(records@).len() == 0 ==> message_views(r.messages@) == seq![
                ("error"@, stderr@, Some("Cargo.toml"@), None::<usize>, None::<Seq<char>>),
            ],
            success || reported(records@).len() > 0 ==> message_views(r.messages@) == reported(records@),
    {
        let mut messages: Vec<CompilerMessage> = Vec::new();
        let mut i: usize = 0;
        while i < records.len()
            invariant
                i <= records@.len(),
                message_views(messages@) == reported(records@.subrange(0, i as int)),
            decreases records@.len() - i,
        {
            let ghost sub = records@.subrange(0, i + 1);
            assert(sub.drop_last() =~= records@.subrange(0, i as int));
            let d = &records[i];
            let is_compiler_message = match &d.reason {
                Some(x) => *x == "compiler-message".to_owned(),
                None => false,
            };
            if is_compiler_message && d.has_message {
                let level = match &d.level {
                    Some(l) => l.clone(),
                    None => "unknown".to_owned(),
                };
                if level == "error".to_owned() || level == "warning".to_owned() {
                    let m = CompilerMessage {
                        level,
                        message: match &d.message {
                            Some(m) => m.clone(),
                            None => String::new(),
                        },
                        file: clone_opt(&d.file),
                        line: d.line,
                        code: clone_opt(&d.code),
                    };
                    let ghost before = messages@;
                    messages.push(m);
                    assert(message_views(messages@) =~= message_views(before).push(message_view(m)));
                }
            }
            i = i + 1;
        }
        assert(records@.subrange(0, i as int) =~= records@);
        if !success && messages.len() == 0 {
            let m = CompilerMessage {
                level: "error".to_owned(),
                message: stderr,
                file: Some("Cargo.toml".to_owned()),
                line: None,
                code: None,
            };
            messages.push(m);
            assert(message_views(messages@) =~= seq![message_view(m)]);
        }
        CheckResult { success, messages }
    }
}

impl DependencyManager {
    pub fn new() -> Self {
        DependencyManager
    }

    /// The value of `--features` for `cargo add`: the features joined by commas; none when
    /// there are none.
    pub fn features_arg(&self, features: &Option<Vec<String>>) -> (r: Option<String>)
        ensures
            features matches Some(f) ==> (f@.len() > 0 ==> (r matches Some(s) && s@ == comma_list(
                crate::text::views(f@),
            ))),
            features matches Some(f) ==> (f@.len() == 0 ==> r is None),
            features is None ==> r is None,
    {
        match features {
            None => None,
            Some(f) => {
                if f.len() == 0 {
                    return None;
                }
                let mut s = f[0].clone();
                let mut i: usize = 1;
                assert(crate::text::views(f@).subrange(0, 1) =~= seq![f@[0]@]);
                while i < f.len()
                    invariant
                        1 <= i <= f@.len(),
                        s@ == comma_list(crate::text::views(f@).subrange(0, i as int)),
                    decreases f@.len() - i,
                {
                    let ghost sub = crate::text::views(f@).subrange(0, i + 1);
                    assert(sub.drop_last() =~= crate::text::views(f@).subrange(0, i as int));
                    s = s.concat(",").concat(f[i].as_str());
                    i = i + 1;
                }
                assert(crate::text::views(f@).subrange(0, i as int) =~= crate::text::views(f@));
                Some(s)
            },
        }
    }
}

/// What an error code must look like: E and four digits.
pub const ERROR_CODE_PATTERN: &'static str = r"^E\d{4}$";

impl ErrorExplainer {
    pub fn new() -> Self {
        ErrorExplainer
    }

    /// The refusal for a code that does not look like an error code; none for one that
    /// does, which may then be given to `rustc --explain`.
    pub fn refusal(&self, error_code: &str) -> (r: Option<String>)
        ensures
            regex_accepts(ERROR_CODE_PATTERN@, error_code@) ==> r is None,
            !regex_accepts(ERROR_CODE_PATTERN@, error_code@) ==> (r matches Some(m) && m@
                == "Invalid error code format: '"@ + error_code@ + "'. Expected format like 'E0308'."@),
    {
        if regex_is_match(ERROR_CODE_PATTERN, error_code) {
            None
        } else {
            Some(
                "Invalid error code format: '".to_owned().concat(error_code).concat(
                    "'. Expected format like 'E0308'.",
                ),
            )
        }
    }

    /// The answer for a valid code: the explanation rustc gave, or a note that it gave none.
    pub fn explanation(&self, error_code: &str, explained: Option<String>) -> (r: String)
        ensures
            explained matches Some(t) ==> r@ == t@,
            explained is None ==> r@ == "No explanation found for "@ + error_code@
                + ". It might not be a standard rustc error code."@,
    {
        match explained {
            Some(t) => t,
            None => "No explanation found for ".to_owned().concat(error_code).concat(
                ". It might not be a standard rustc error code.",
            ),
        }
    }
}

impl CodePolisher {
    pub fn new() -> Self {
        CodePolisher
    }

    /// What a `cargo fmt` run reports.
    pub fn fmt_report(&self, success: bool, stderr: &str) -> (r: String)
        ensures
            success ==> r@ == "Code formatted successfully."@,
            !success ==> r@ == "❌ Format failed: "@ + stderr@,
    {
        if success {
            "Code formatted successfully.".to_owned()
        } else {
            "❌ Format failed: ".to_owned().concat(stderr)
        }
    }

    /// What a `cargo clippy` run reports.
    pub fn clippy_report(&self, success: bool, stderr: &str) -> (r: String)
        ensures
            success ==> r@ == "Clippy is happy. No issues found."@,
            !success ==> r@ == "Clippy Suggestions:\n"@ + stderr@,
    {
        if success {
            "Clippy is happy. No issues found.".to_owned()
        } else {
            "Clippy Suggestions:\n".to_owned().concat(stderr)
        }
    }
}

impl GitController {
    pub fn new() -> Self {
        GitController
    }

    /// What a git run reports: its trimmed output, or its trimmed error output after
    /// "Git Error: " when it failed.
    pub fn report(&self, success: bool, stdout: &str, stderr: &str) -> (r: String)
        ensures
            success ==> r@ == trim_of(stdout@),
            !success ==> r@ == "Git Error: "@ + trim_of(stderr@),
    {
        if success {
            trim(stdout)
        } else {
            "Git Error: ".to_owned().concat(trim(stderr).as_str())
        }
    }
}

/// The source of a new tool named `s`.
pub open spec fn tool_source_of(s: Seq<char>) -> Seq<char> {
    "use anyhow::{Context, Result};\n\npub struct "@ + s + ";\n\nimpl "@ + s
        + " {\n    pub fn new() -> Self {\n        Self\n    }\n\n    pub async fn run(&self, input: String) -> Result<String> {\n        Ok(format!(\"Processed: {}\", input))\n    }\n}\n"@
}

impl McpToolScaffolder {
    pub fn new() -> Self {
        McpToolScaffolder
    }

    /// The source file of a new tool whose struct is `struct_name`.
    pub fn tool_source(&self, struct_name: &str) -> (r: String)
        ensures
            r@ == tool_source_of(struct_name@),
    {
        "use anyhow::{Context, Result};\n\npub struct ".to_owned().concat(struct_name).concat(
            ";\n\nimpl ",
        ).concat(struct_name).concat(
            " {\n    pub fn new() -> Self {\n        Self\n    }\n\n    pub async fn run(&self, input: String) -> Result<String> {\n        Ok(format!(\"Processed: {}\", input))\n    }\n}\n",
        )
    }

    /// The lines that register the tool in the tools module, when `mod_content` does not
    /// declare its module yet: the module line, then the re-export line.
    pub fn registration(&self, mod_content: &str, tool_name: &str, struct_name: &str) -> (r: Option<
        String,
    >)
        ensures
            has_infix(mod_content@, "pub mod "@ + tool_name@ + ";\n"@) ==> r is None,
            !has_infix(mod_content@, "pub mod "@ + tool_name@ + ";\n"@) ==> (r matches Some(t) && t@
                == "\n"@ + "pub mod "@ + tool_name@ + ";\n"@ + "pub use "@ + tool_name@ + "::"@ + struct_name@
                + ";\n"@),
    {
        let mod_line = "pub mod ".to_owned().concat(tool_name).concat(";\n");
        if contains(mod_content, mod_line.as_str()) {
            None
        } else {
            let use_line = "pub use ".to_owned().concat(tool_name).concat("::").concat(struct_name).concat(
                ";\n",
            );
            let r = "\n".to_owned().concat(mod_line.as_str()).concat(use_line.as_str());
            assert(r@ =~= "\n"@ + "pub mod "@ + tool_name@ + ";\n"@ + "pub use "@ + tool_name@ + "::"@
                + struct_name@ + ";\n"@);
            Some(r)
        }
    }
}

impl TestRunner {
    pub fn new() -> Self {
        TestRunner
    }

    /// The test filter handed to cargo: the given one unless it is blank.
    pub fn effective_filter(&self, filter: Option<String>) -> (r: Option<String>)
        ensures
            (filter matches Some(f) && trim_of(f@).len() > 0) ==> r == filter,
            !(filter matches Some(f) && trim_of(f@).len() > 0) ==> r is None,
    {
        match filter {
            Some(f) => {
                if trim(f.as_str()).as_str().is_empty() {
                    None
                } else {
                    Some(f)
                }
            },
            None => None,
        }
    }

    /// The report of a test run: its status and both outputs.
    pub fn report(&self, success: bool, stdout: &str, stderr: &str) -> (r: String)
        ensures
            r@ == test_report(success, stdout@, stderr@),
    {
        let status = if success {
            "Tests passed!"
        } else {
            "Tests failed."
        };
        status.to_owned().concat("\n\n=== STDOUT ===\n").concat(stdout).concat(
            "\n=== STDERR ===\n",
        ).concat(stderr)
    }
}

} // verus!
