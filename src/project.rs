//! Drawing the directory tree of a project.
use vstd::prelude::*;
use vstd::string::StringExecFns;
use crate::text::{contains, has_infix};

verus! {

/// The text for a tree without entries.
pub const EMPTY_TREE: &'static str = "Directory is empty or path is invalid.";

/// One entry of a walk of the project, below its root.
pub struct TreeEntry {
    /// The path relative to the root; empty for the root itself.
    pub relative_path: String,
    /// The number of components of `relative_path`.
    pub depth: usize,
    pub name: String,
    pub is_dir: bool,
}

/// Directories whose content is left out of the tree.
pub open spec fn is_ignored_name(n: Seq<char>) -> bool {
    n == "target"@ || n == ".git"@ || n == "node_modules"@ || n == ".idea"@ || n == ".vscode"@
}

/// Whether a path mentions one of the left-out directories.
pub open spec fn mentions_ignored(p: Seq<char>) -> bool {
    has_infix(p, "target"@) || has_infix(p, ".git"@) || has_infix(p, "node_modules"@) || has_infix(
        p,
        ".idea"@,
    ) || has_infix(p, ".vscode"@)
}

/// Four spaces for each level.
pub open spec fn indent(levels: nat) -> Seq<char>
    decreases levels,
{
    if levels == 0 {
        Seq::empty()
    } else {
        indent((levels - 1) as nat) + "    "@
    }
}

/// The line of one entry, or nothing when it is left out.
pub open spec fn entry_text(e: TreeEntry) -> Seq<char> {
    if e.depth == 0 {
        Seq::empty()
    } else if is_ignored_name(e.name@) && e.is_dir {
        indent((e.depth - 1) as nat) + "|-- "@ + e.name@ + "/ (skipped)\n"@
    } else if mentions_ignored(e.relative_path@) {
        Seq::empty()
    } else if e.is_dir {
        indent((e.depth - 1) as nat) + "|-- "@ + e.name@ + "/\n"@
    } else {
        indent((e.depth - 1) as nat) + "|-- "@ + e.name@ + "\n"@
    }
}

/// The lines of all entries, in order.
pub open spec fn tree_text(es: Seq<TreeEntry>) -> Seq<char>
    decreases es.len(),
{
    if es.len() == 0 {
        Seq::empty()
    } else {
        tree_text(es.drop_last()) + entry_text(es.last())
    }
}

fn ignored_name(n: &String) -> (r: bool)
    ensures
        r == is_ignored_name(n@),
{
    *n == "target".to_owned() || *n == ".git".to_owned() || *n == "node_modules".to_owned() || *n
        == ".idea".to_owned() || *n == ".vscode".to_owned()
}

fn mentions_ignored_exec(p: &str) -> (r: bool)
    ensures
        r == mentions_ignored(p@),
{
    contains(p, "target") || contains(p, ".git") || contains(p, "node_modules") || contains(
        p,
        ".idea",
    ) || contains(p, ".vscode")
}

fn indent_text(levels: usize) -> (r: String)
    ensures
        r@ == indent(levels as nat),
{
    let mut s = String::new();
    let mut i: usize = 0;
    while i < levels
        invariant
            i <= levels,
            s@ == indent(i as nat),
        decreases levels - i,
    {
        s = s.concat("    ");
        i = i + 1;
    }
    s
}

fn entry_line(e: &TreeEntry) -> (r: String)
    ensures
        r@ == entry_text(*e),
{
    if e.depth == 0 {
        return String::new();
    }
    if ignored_name(&e.name) && e.is_dir {
        return indent_text(e.depth - 1).concat("|-- ").concat(e.name.as_str()).concat("/ (skipped)\n");
    }
    if mentions_ignored_exec(e.relative_path.as_str()) {
        return String::new();
    }
    if e.is_dir {
        indent_text(e.depth - 1).concat("|-- ").concat(e.name.as_str()).concat("/\n")
    } else {
        indent_text(e.depth - 1).concat("|-- ").concat(e.name.as_str()).concat("\n")
    }
}

/// Draws project trees.
pub struct ProjectManager;

impl ProjectManager {
    pub fn new() -> Self {
        ProjectManager
    }

    /// The tree of the entries of a walk, one line per entry shown, or `EMPTY_TREE` when no
    /// line is shown.
    pub fn render_structure(&self, entries: &Vec<TreeEntry>) -> (r: String)
        ensures
            tree_text(entries@).len() > 0 ==> r@ == tree_text(entries@),
            tree_text(entries@).len() == 0 ==> r@ == EMPTY_TREE@,
    {
        let mut out = String::new();
        let mut i: usize = 0;
        while i < entries.len()
            invariant
                i <= entries@.len(),
                out@ == tree_text(entries@.subrange(0, i as int)),
            decreases entries@.len() - i,
        {
            let ghost sub = entries@.subrange(0, i + 1);
            assert(sub.drop_last() =~= entries@.subrange(0, i as int));
            let line = entry_line(&entries[i]);
            out = out.concat(line.as_str());
            i = i + 1;
        }
        assert(entries@.subrange(0, i as int) =~= entries@);
        if out.as_str().is_empty() {
            EMPTY_TREE.to_owned()
        } else {
            out
        }
    }
}

} // verus!
