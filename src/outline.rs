//! The outline of a Rust source file: its items, without bodies.
use vstd::prelude::*;
use vstd::string::StringExecFns;

verus! {

/// A field of a struct: its name, none for a tuple field, and its type as text.
pub struct FieldLine {
    pub name: Option<String>,
    pub ty: String,
}

/// One item of a file, its parts already written as text.
pub enum OutlineItem {
    Struct { vis: String, name: String, fields: Vec<FieldLine> },
    Enum { vis: String, name: String, variants: Vec<String> },
    Function { vis: String, signature: String },
    Impl { trait_part: String, self_ty: String, methods: Vec<String> },
    Module { vis: String, name: String },
}

/// The lines of the named fields.
pub open spec fn field_lines(fs: Seq<FieldLine>) -> Seq<char>
    decreases fs.len(),
{
    if fs.len() == 0 {
        Seq::empty()
    } else {
        field_lines(fs.drop_last()) + match fs.last().name {
            Some(n) => "    "@ + n@ + ": "@ + fs.last().ty@ + ",\n"@,
            None => Seq::empty(),
        }
    }
}

/// One line for each entry: indentation, the entry, then `end`.
pub open spec fn member_lines(ms: Seq<String>, end: Seq<char>) -> Seq<char>
    decreases ms.len(),
{
    if ms.len() == 0 {
        Seq::empty()
    } else {
        member_lines(ms.drop_last(), end) + "    "@ + ms.last()@ + end
    }
}

/// The text of one item.
pub open spec fn item_text(item: OutlineItem) -> Seq<char> {
    match item {
        OutlineItem::Struct { vis, name, fields } => "\n"@ + vis@ + "struct "@ + name@ + " {\n"@
            + field_lines(fields@) + "}\n"@,
        OutlineItem::Enum { vis, name, variants } => "\n"@ + vis@ + "enum "@ + name@ + " {\n"@
            + member_lines(variants@, ",\n"@) + "}\n"@,
        OutlineItem::Function { vis, signature } => "\n"@ + vis@ + signature@ + ";\n"@,
        OutlineItem::Impl { trait_part, self_ty, methods } => "\nimpl "@ + trait_part@ + self_ty@
            + " {\n"@ + member_lines(methods@, ";\n"@) + "}\n"@,
        OutlineItem::Module { vis, name } => "\n"@ + vis@ + "mod "@ + name@ + ";\n"@,
    }
}

/// The text of all items, in order.
pub open spec fn items_text(items: Seq<OutlineItem>) -> Seq<char>
    decreases items.len(),
{
    if items.len() == 0 {
        Seq::empty()
    } else {
        items_text(items.drop_last()) + item_text(items.last())
    }
}

fn fields_text(fs: &Vec<FieldLine>) -> (r: String)
    ensures
        r@ == field_lines(fs@),
{
    let mut s = String::new();
    let mut i: usize = 0;
    while i < fs.len()
        invariant
            i <= fs@.len(),
            s@ == field_lines(fs@.subrange(0, i as int)),
        decreases fs@.len() - i,
    {
        let ghost sub = fs@.subrange(0, i + 1);
        assert(sub.drop_last() =~= fs@.subrange(0, i as int));
        match &fs[i].name {
            Some(n) => {
                s = s.concat("    ").concat(n.as_str()).concat(": ").concat(fs[i].ty.as_str()).concat(",\n");
            },
            None => {
                assert(s@ + Seq::<char>::empty() =~= s@);
            },
        }
        i = i + 1;
    }
    assert(fs@.subrange(0, i as int) =~= fs@);
    s
}

fn members_text(ms: &Vec<String>, end: &str) -> (r: String)
    ensures
        r@ == member_lines(ms@, end@),
{
    let mut s = String::new();
    let mut i: usize = 0;
    while i < ms.len()
        invariant
            i <= ms@.len(),
            s@ == member_lines(ms@.subrange(0, i as int), end@),
        decreases ms@.len() - i,
    {
        let ghost sub = ms@.subrange(0, i + 1);
        assert(sub.drop_last() =~= ms@.subrange(0, i as int));
        s = s.concat("    ").concat(ms[i].as_str()).concat(end);
        i = i + 1;
    }
    assert(ms@.subrange(0, i as int) =~= ms@);
    s
}

fn item_string(item: &OutlineItem) -> (r: String)
    ensures
        r@ == item_text(*item),
{
    match item {
        OutlineItem::Struct { vis, name, fields } => "\n".to_owned().concat(vis.as_str()).concat(
            "struct ",
        ).concat(name.as_str()).concat(" {\n").concat(fields_text(fields).as_str()).concat("}\n"),
        OutlineItem::Enum { vis, name, variants } => "\n".to_owned().concat(vis.as_str()).concat(
            "enum ",
        ).concat(name.as_str()).concat(" {\n").concat(members_text(variants, ",\n").as_str()).concat(
            "}\n",
        ),
        OutlineItem::Function { vis, signature } => "\n".to_owned().concat(vis.as_str()).concat(
            signature.as_str(),
        ).concat(";\n"),
        OutlineItem::Impl { trait_part, self_ty, methods } => "\nimpl ".to_owned().concat(
            trait_part.as_str(),
        ).concat(self_ty.as_str()).concat(" {\n").concat(members_text(methods, ";\n").as_str()).concat(
            "}\n",
        ),
        OutlineItem::Module { vis, name } => "\n".to_owned().concat(vis.as_str()).concat(
            "mod ",
        ).concat(name.as_str()).concat(";\n"),
    }
}

/// Writes outlines.
pub(crate) fn render_outline(path: &str, items: &Vec<OutlineItem>) -> (r: String)
    ensures
        r@ == "// OUTLINE: "@ + path@ + "\n"@ + items_text(items@),
{
    let mut s = "// OUTLINE: ".to_owned().concat(path).concat("\n");
    let ghost head = s@;
    let mut i: usize = 0;
    assert(head + items_text(items@.subrange(0, 0)) =~= head);
    while i < items.len()
        invariant
            i <= items@.len(),
            head == "// OUTLINE: "@ + path@ + "\n"@,
            s@ == head + items_text(items@.subrange(0, i as int)),
        decreases items@.len() - i,
    {
        let ghost sub = items@.subrange(0, i + 1);
        assert(sub.drop_last() =~= items@.subrange(0, i as int));
        s = s.concat(item_string(&items[i]).as_str());
        assert(s@ =~= head + items_text(sub));
        i = i + 1;
    }
    assert(items@.subrange(0, i as int) =~= items@);
    s
}

} // verus!
