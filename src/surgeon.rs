//! Editing a file by replacing one snippet of it.
use vstd::prelude::*;
use vstd::string::StringExecFns;
use crate::text::{chars_of, contains, has_infix, is_space, space, string_of};

verus! {

/// Adds a word to a line of words, a single space between two words.
pub open spec fn join_word(out: Seq<char>, cur: Seq<char>) -> Seq<char> {
    if cur.len() == 0 {
        out
    } else if out.len() == 0 {
        cur
    } else {
        out + seq![' '] + cur
    }
}

/// Left-to-right scan of `s` that joins its words: `cur` is the word being read, `out`
/// the words before it.
pub open spec fn collapse_scan(s: Seq<char>, cur: Seq<char>, out: Seq<char>) -> Seq<char>
    decreases s.len(),
{
    if s.len() == 0 {
        join_word(out, cur)
    } else if is_space(s[0]) {
        collapse_scan(s.drop_first(), Seq::empty(), join_word(out, cur))
    } else {
        collapse_scan(s.drop_first(), cur.push(s[0]), out)
    }
}

/// The words of `s`, the runs of characters between white space, joined by single spaces.
pub open spec fn collapse_ws(s: Seq<char>) -> Seq<char> {
    collapse_scan(s, Seq::empty(), Seq::empty())
}

/// The words of `s` joined by single spaces.
pub fn collapse_whitespace(s: &str) -> (r: String)
    ensures
        r@ == collapse_ws(s@),
{
    let cs = chars_of(s);
    let mut out: Vec<char> = Vec::new();
    let mut cur: Vec<char> = Vec::new();
    let mut i: usize = 0;
    assert(cs@.subrange(0, cs@.len() as int) =~= cs@);
    assert(out@ =~= Seq::<char>::empty());
    assert(cur@ =~= Seq::<char>::empty());
    while i < cs.len()
        invariant
            i <= cs@.len(),
            cs@ == s@,
            collapse_scan(cs@.subrange(i as int, cs@.len() as int), cur@, out@) == collapse_ws(s@),
        decreases cs@.len() - i,
    {
        let ghost rest = cs@.subrange(i as int, cs@.len() as int);
        assert(rest.drop_first() =~= cs@.subrange(i + 1, cs@.len() as int));
        assert(rest[0] == cs@[i as int]);
        let c = cs[i];
        if space(c) {
            let ghost joined = join_word(out@, cur@);
            if cur.len() > 0 {
                if out.len() > 0 {
                    out.push(' ');
                }
                out.append(&mut cur);
            }
            assert(out@ =~= joined);
            cur = Vec::new();
        } else {
            cur.push(c);
        }
        i = i + 1;
    }
    assert(cs@.subrange(i as int, cs@.len() as int) =~= Seq::<char>::empty());
    let ghost joined = join_word(out@, cur@);
    if cur.len() > 0 {
        if out.len() > 0 {
            out.push(' ');
        }
        out.append(&mut cur);
    }
    assert(out@ =~= joined);
    string_of(out.as_slice())
}

/// Every line feed of `s` preceded by a carriage return.
pub open spec fn crlf(s: Seq<char>) -> Seq<char>
    decreases s.len(),
{
    if s.len() == 0 {
        Seq::empty()
    } else if s.last() == '\n' {
        crlf(s.drop_last()) + seq!['\r', '\n']
    } else {
        crlf(s.drop_last()).push(s.last())
    }
}

/// The snippet searched for: when the file has Windows line endings and the snippet has
/// none, the snippet's line feeds become carriage return and line feed.
pub open spec fn search_form(content: Seq<char>, search: Seq<char>) -> Seq<char> {
    if has_infix(content, seq!['\r', '\n']) && !has_infix(search, seq!['\r', '\n']) {
        crlf(search)
    } else {
        search
    }
}

/// Whether `n` occurs in `h` at position `i`.
pub open spec fn occurs_at(h: Seq<char>, n: Seq<char>, i: int) -> bool {
    0 <= i && i + n.len() <= h.len() && h.subrange(i, i + n.len()) == n
}

/// The number of occurrences of `n` in `h` from position `i` on, that do not overlap,
/// taken from the left.
pub open spec fn count_from(h: Seq<char>, n: Seq<char>, i: int) -> nat
    decreases h.len() + 1 - i,
{
    if i < 0 || i > h.len() {
        0
    } else if occurs_at(h, n, i) {
        1 + count_from(h, n, i + if n.len() == 0 {
            1
        } else {
            n.len() as int
        })
    } else {
        count_from(h, n, i + 1)
    }
}

/// What a patch comes to.
pub enum PatchPlan {
    /// The first occurrence was replaced: the new content, and how many occurrences there were.
    Write { content: String, occurrences: usize },
    /// The snippet occurs only when white space is ignored.
    NearMiss,
    /// The snippet does not occur.
    NotFound,
}

fn occurs_at_exec(h: &Vec<char>, n: &Vec<char>, i: usize) -> (r: bool)
    ensures
        r == occurs_at(h@, n@, i as int),
{
    if i > h.len() || n.len() > h.len() - i {
        return false;
    }
    let mut k: usize = 0;
    while k < n.len()
        invariant
            h@.len() <= usize::MAX,
            i + n@.len() <= h@.len(),
            k <= n@.len(),
            forall|j: int| 0 <= j < k ==> h@[i + j] == #[trigger] n@[j],
        decreases n@.len() - k,
    {
        if h[i + k] != n[k] {
            assert(h@.subrange(i as int, i + n@.len())[k as int] != n@[k as int]);
            return false;
        }
        k = k + 1;
    }
    assert(h@.subrange(i as int, i + n@.len()) =~= n@);
    true
}

/// Replaces each line feed of `s` by carriage return and line feed.
pub fn to_crlf(s: &str) -> (r: String)
    ensures
        r@ == crlf(s@),
{
    let cs = chars_of(s);
    let mut out: Vec<char> = Vec::new();
    let mut i: usize = 0;
    while i < cs.len()
        invariant
            i <= cs@.len(),
            cs@ == s@,
            out@ == crlf(cs@.subrange(0, i as int)),
        decreases cs@.len() - i,
    {
        let ghost sub = cs@.subrange(0, i + 1);
        assert(sub.drop_last() =~= cs@.subrange(0, i as int));
        if cs[i] == '\n' {
            out.push('\r');
            out.push('\n');
        } else {
            out.push(cs[i]);
        }
        assert(out@ =~= crlf(sub));
        i = i + 1;
    }
    assert(cs@.subrange(0, i as int) =~= s@);
    string_of(out.as_slice())
}

/// Replaces snippets in files.
pub struct FileSurgeon;

impl FileSurgeon {
    pub fn new() -> Self {
        FileSurgeon
    }

    /// Whether `snippet` occurs in `content` once both have every run of white space
    /// made a single space.
    pub fn matches_ignoring_whitespace(&self, content: &str, snippet: &str) -> (r: bool)
        ensures
            r == has_infix(collapse_ws(content@), collapse_ws(snippet@)),
    {
        let c = collapse_whitespace(content);
        let s = collapse_whitespace(snippet);
        contains(c.as_str(), s.as_str())
    }

    /// What replacing `search` by `replace` in a file that holds `content` comes to. The
    /// snippet is first given the file's line endings (see `search_form`). If it occurs,
    /// its first occurrence is replaced and the occurrences are counted; else it is told
    /// whether it occurs once white space is ignored.
    pub fn plan_patch(&self, content: &str, search: &str, replace: &str) -> (r: PatchPlan)
        requires
            content@.len() < usize::MAX,
        ensures
            has_infix(content@, search_form(content@, search@)) ==> (r matches PatchPlan::Write {
                content: c,
                occurrences,
            } && ({
                let n = search_form(content@, search@);
                exists|i: int|
                    #![trigger occurs_at(content@, n, i)]
                    occurs_at(content@, n, i) && (forall|j: int|
                        0 <= j < i ==> !occurs_at(content@, n, j)) && c@ == content@.subrange(0, i)
                        + replace@ + content@.subrange(i + n.len(), content@.len() as int)
            }) && occurrences == count_from(content@, search_form(content@, search@), 0)),
            !has_infix(content@, search_form(content@, search@)) && has_infix(
                collapse_ws(content@),
                collapse_ws(search_form(content@, search@)),
            ) ==> r is NearMiss,
            !has_infix(content@, search_form(content@, search@)) && !has_infix(
                collapse_ws(content@),
                collapse_ws(search_form(content@, search@)),
            ) ==> r is NotFound,
    {
        let crlf_text = string_of(vec!['\r', '\n'].as_slice());
        let n_str = if contains(content, crlf_text.as_str()) && !contains(search, crlf_text.as_str()) {
            to_crlf(search)
        } else {
            search.to_owned()
        };
        let ghost n = search_form(content@, search@);
        assert(n_str@ == n);
        if !contains(content, n_str.as_str()) {
            if self.matches_ignoring_whitespace(content, n_str.as_str()) {
                return PatchPlan::NearMiss;
            } else {
                return PatchPlan::NotFound;
            }
        }
        let h = chars_of(content);
        let nv = chars_of(n_str.as_str());
        // The first occurrence.
        let mut i: usize = 0;
        let mut first: usize = 0;
        let mut found = false;
        while i <= h.len() && !found
            invariant
                h@ == content@,
                content@.len() < usize::MAX,
                nv@ == n,
                has_infix(h@, nv@),
                !found ==> forall|j: int| 0 <= j < i ==> !occurs_at(h@, nv@, j),
                found ==> occurs_at(h@, nv@, first as int) && forall|j: int|
                    0 <= j < first ==> !occurs_at(h@, nv@, j),
                i <= h@.len() + 1,
            decreases h@.len() + 1 - i, if found { 0int } else { 1int },
        {
            if occurs_at_exec(&h, &nv, i) {
                first = i;
                found = true;
            } else {
                i = i + 1;
            }
        }
        proof {
            if !found {
                let k = choose|k: int|
                    0 <= k <= h@.len() - nv@.len() && #[trigger] h@.subrange(k, k + nv@.len()) == nv@;
                assert(occurs_at(h@, nv@, k));
            }
        }
        assert(found);
        // The occurrences, from the left, without overlap.
        let mut count: usize = 0;
        let mut p: usize = 0;
        let step: usize = if nv.len() == 0 {
            1
        } else {
            nv.len()
        };
        while p <= h.len()
            invariant
                h@ == content@,
                content@.len() < usize::MAX,
                nv@ == n,
                step == if nv@.len() == 0 {
                    1
                } else {
                    nv@.len()
                },
                p <= h@.len() + 1,
                count <= p,
                count + count_from(h@, nv@, p as int) == count_from(h@, nv@, 0),
            decreases h@.len() + 1 - p,
        {
            if occurs_at_exec(&h, &nv, p) {
                count = count + 1;
                p = p + step;
            } else {
                p = p + 1;
            }
        }
        // The new content.
        let mut out: Vec<char> = Vec::new();
        let mut k: usize = 0;
        while k < first
            invariant
                first + nv@.len() <= h@.len(),
                k <= first,
                out@ == h@.subrange(0, k as int),
            decreases first - k,
        {
            out.push(h[k]);
            assert(out@ =~= h@.subrange(0, k + 1));
            k = k + 1;
        }
        let head = string_of(out.as_slice());
        let mut tail: Vec<char> = Vec::new();
        let mut m: usize = first + nv.len();
        while m < h.len()
            invariant
                first + nv@.len() <= m <= h@.len(),
                tail@ == h@.subrange(first + nv@.len(), m as int),
            decreases h@.len() - m,
        {
            tail.push(h[m]);
            assert(tail@ =~= h@.subrange(first + nv@.len(), m + 1));
            m = m + 1;
        }
        let rest = string_of(tail.as_slice());
        let new_content = head.concat(replace).concat(rest.as_str());
        assert(occurs_at(content@, n, first as int));
        PatchPlan::Write { content: new_content, occurrences: count }
    }
}

} // verus!
