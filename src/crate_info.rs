//! Facts about a crate, read from the local copy of the crates.io index.
use vstd::prelude::*;
use vstd::string::StringExecFns;
use crate::text::{chars_of, string_of};

verus! {

/// What is known of one crate.
pub struct CrateInfo {
    pub name: String,
    pub version: String,
    pub description: Option<String>,
    pub repository: Option<String>,
    pub documentation: Option<String>,
    pub license: Option<String>,
    pub dependencies: Vec<String>,
}

/// A dependency as one line of the index lists it.
pub struct DependencyEntry {
    pub name: String,
    pub optional: bool,
}

/// One line of the index: one published version of a crate.
pub struct IndexEntry {
    pub name: String,
    pub vers: String,
    pub deps: Vec<DependencyEntry>,
    pub yanked: bool,
}

/// Looks crates up in a local registry.
pub struct CrateInfoProvider {
    pub registry_path: String,
}

/// Where the documentation of every crate is published.
pub const DOCS_BASE: &'static str = "https://docs.rs/";

/// Whether `a` comes before `b` in lexicographic order of characters, which is the order
/// of their UTF-8 bytes.
pub open spec fn lex_less(a: Seq<char>, b: Seq<char>) -> bool
    decreases a.len(),
{
    if b.len() == 0 {
        false
    } else if a.len() == 0 {
        true
    } else if a[0] != b[0] {
        (a[0] as u32) < (b[0] as u32)
    } else {
        lex_less(a.drop_first(), b.drop_first())
    }
}

/// The entry that the first `n` entries yield as the newest: the first of the unyanked
/// ones whose version no later unyanked one exceeds.
pub open spec fn newest_of(entries: Seq<IndexEntry>, n: nat) -> Option<int>
    decreases n,
{
    if n == 0 {
        None
    } else {
        let prev = newest_of(entries, (n - 1) as nat);
        let e = entries[n - 1];
        if e.yanked {
            prev
        } else {
            match prev {
                None => Some(n - 1),
                Some(k) => if lex_less(entries[k].vers@, e.vers@) {
                    Some(n - 1)
                } else {
                    prev
                },
            }
        }
    }
}

/// The names of the dependencies that are not optional, in order.
pub open spec fn required_deps(deps: Seq<DependencyEntry>) -> Seq<Seq<char>>
    decreases deps.len(),
{
    if deps.len() == 0 {
        Seq::empty()
    } else {
        let rest = required_deps(deps.drop_last());
        if deps.last().optional {
            rest
        } else {
            rest.push(deps.last().name@)
        }
    }
}

/// The directories and file name under the index root that hold the lines of a crate.
pub open spec fn index_location(name: Seq<char>) -> Seq<Seq<char>> {
    if name.len() == 1 {
        seq!["1"@, name]
    } else if name.len() == 2 {
        seq!["2"@, name]
    } else if name.len() == 3 {
        seq!["3"@, name.subrange(0, 1), name]
    } else {
        seq![name.subrange(0, 2), name.subrange(2, 4), name]
    }
}

impl CrateInfoProvider {
    pub fn new(registry_path: String) -> (r: Self)
        ensures
            r.registry_path@ == registry_path@,
    {
        CrateInfoProvider { registry_path }
    }

    /// Whether version `v1` is newer than `v2`, compared as text.
    pub fn is_newer_version(&self, v1: &str, v2: &str) -> (r: bool)
        ensures
            r == lex_less(v2@, v1@),
    {
        let a = chars_of(v2);
        let b = chars_of(v1);
        let mut i: usize = 0;
        assert(a@.subrange(0, a@.len() as int) =~= a@);
        assert(b@.subrange(0, b@.len() as int) =~= b@);
        assert(a@.subrange(0, 0) =~= b@.subrange(0, 0));
        while i < a.len() && i < b.len()
            invariant
                a@ == v2@,
                b@ == v1@,
                i <= a@.len(),
                i <= b@.len(),
                a@.subrange(0, i as int) == b@.subrange(0, i as int),
                lex_less(a@, b@) == lex_less(a@.subrange(i as int, a@.len() as int), b@.subrange(i as int, b@.len() as int)),
            decreases a@.len() - i,
        {
            let ghost sa = a@.subrange(i as int, a@.len() as int);
            let ghost sb = b@.subrange(i as int, b@.len() as int);
            assert(sa[0] == a@[i as int] && sb[0] == b@[i as int]);
            if a[i] != b[i] {
                assert(lex_less(sa, sb) == ((sa[0] as u32) < (sb[0] as u32)));
                return (a[i] as u32) < (b[i] as u32);
            }
            assert(sa.drop_first() =~= a@.subrange(i + 1, a@.len() as int));
            assert(sb.drop_first() =~= b@.subrange(i + 1, b@.len() as int));
            assert(a@.subrange(0, i + 1) =~= a@.subrange(0, i as int).push(a@[i as int]));
            assert(b@.subrange(0, i + 1) =~= b@.subrange(0, i as int).push(b@[i as int]));
            i = i + 1;
        }
        i < b.len()
    }

    /// The path components, under the index root, of the file that lists `crate_name`.
    pub fn index_location(&self, crate_name: &str) -> (r: Vec<String>)
        requires
            crate_name@.len() > 0,
        ensures
            crate::text::views(r@) == index_location(crate_name@),
    {
        let cs = chars_of(crate_name);
        let name = crate_name.to_owned();
        let mut out: Vec<String> = Vec::new();
        if cs.len() == 1 {
            out.push("1".to_owned());
        } else if cs.len() == 2 {
            out.push("2".to_owned());
        } else if cs.len() == 3 {
            out.push("3".to_owned());
            let mut head = cs.clone();
            head.truncate(1);
            out.push(string_of(head.as_slice()));
        } else {
            let mut head = cs.clone();
            head.truncate(2);
            out.push(string_of(head.as_slice()));
            let mut mid: Vec<char> = Vec::new();
            mid.push(cs[2]);
            mid.push(cs[3]);
            out.push(string_of(mid.as_slice()));
            assert(head@ =~= crate_name@.subrange(0, 2));
            assert(mid@ =~= crate_name@.subrange(2, 4));
        }
        out.push(name);
        proof {
            if cs@.len() == 3 {
                assert(out@[1]@ =~= crate_name@.subrange(0, 1));
            }
        }
        assert(crate::text::views(out@) =~= index_location(crate_name@));
        out
    }

    /// What the index lines of `crate_name` tell of it: its newest version that is not
    /// yanked, with the dependencies that are not optional; none when every version is
    /// yanked or there is no line.
    pub fn get_crate_info(&self, crate_name: &str, entries: Vec<IndexEntry>) -> (r: Option<CrateInfo>)
        ensures
            newest_of(entries@, entries@.len()) is None ==> r is None,
            newest_of(entries@, entries@.len()) matches Some(k) ==> (r matches Some(info) && {
                let e = entries@[k];
                &&& info.name@ == e.name@
                &&& info.version@ == e.vers@
                &&& info.description is None
                &&& info.repository is None
                &&& info.license is None
                &&& info.documentation matches Some(d) && d@ == DOCS_BASE@ + crate_name@
                &&& crate::text::views(info.dependencies@) == required_deps(e.deps@)
            }),
    {
        let mut newest: Option<usize> = None;
        let mut i: usize = 0;
        while i < entries.len()
            invariant
                i <= entries@.len(),
                newest == match newest_of(entries@, i as nat) {
                    Some(k) => Some(k as usize),
                    None => None::<usize>,
                },
                newest_of(entries@, i as nat) matches Some(k) ==> 0 <= k < i,
            decreases entries@.len() - i,
        {
            if !entries[i].yanked {
                match newest {
                    None => {
                        newest = Some(i);
                    },
                    Some(k) => {
                        if self.is_newer_version(entries[i].vers.as_str(), entries[k].vers.as_str()) {
                            newest = Some(i);
                        }
                    },
                }
            }
            i = i + 1;
        }
        match newest {
            None => None,
            Some(k) => {
                let e = &entries[k];
                let mut deps: Vec<String> = Vec::new();
                let mut j: usize = 0;
                while j < e.deps.len()
                    invariant
                        j <= e.deps@.len(),
                        crate::text::views(deps@) == required_deps(e.deps@.subrange(0, j as int)),
                    decreases e.deps@.len() - j,
                {
                    let ghost sub = e.deps@.subrange(0, j + 1);
                    assert(sub.drop_last() =~= e.deps@.subrange(0, j as int));
                    if !e.deps[j].optional {
                        let ghost before = deps@;
                        deps.push(e.deps[j].name.clone());
                        assert(crate::text::views(deps@) =~= crate::text::views(before).push(e.deps@[j as int].name@));
                    }
                    j = j + 1;
                }
                assert(e.deps@.subrange(0, j as int) =~= e.deps@);
                Some(CrateInfo {
                    name: e.name.clone(),
                    version: e.vers.clone(),
                    description: None,
                    repository: None,
                    documentation: Some(DOCS_BASE.to_owned().concat(crate_name)),
                    license: None,
                    dependencies: deps,
                })
            },
        }
    }
}

} // verus!
