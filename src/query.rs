//! Answering a query against a built index.
//!
//! The score of a document is the sum, over the query's terms (repeats included), of
//! tf * idf = (count / total) * ln(N / df). Every summand is at least zero, and it is
//! positive exactly when the document holds the term and some document does not. This
//! module selects the documents with a positive score and lists the positive summands of
//! each in integers; `rank` orders documents by their scores.
use vstd::prelude::*;
use crate::document::{TermCount, find_term, lookup};
use crate::index::SearchIndex;
use crate::text::views;
use crate::tokenizer::{terms_of, tokenize};

verus! {

/// The most results a query returns.
pub const MAX_RESULTS: usize = 15;

/// One positive summand of a score: (count / total) * ln(docs / df).
pub struct ScorePart {
    pub count: u64,
    pub total: u64,
    pub df: u64,
    pub docs: u64,
}

/// A document with a positive score, by its position in the index, and the summands of
/// its score.
pub struct Candidate {
    pub doc: usize,
    pub parts: Vec<ScorePart>,
}

pub open spec fn part_view(p: ScorePart) -> (nat, nat, nat, nat) {
    (p.count as nat, p.total as nat, p.df as nat, p.docs as nat)
}

pub open spec fn part_views(ps: Seq<ScorePart>) -> Seq<(nat, nat, nat, nat)> {
    ps.map_values(|p: ScorePart| part_view(p))
}

pub open spec fn candidate_views(cs: Seq<Candidate>) -> Seq<(nat, Seq<(nat, nat, nat, nat)>)> {
    cs.map_values(|c: Candidate| (c.doc as nat, part_views(c.parts@)))
}

/// Whether query term `q` adds a positive amount to the score of document `d`.
pub open spec fn contributes(index: &SearchIndex, d: int, q: Seq<char>) -> bool {
    index.documents@[d].count_of(q) > 0 && index.df(q) < index.n_docs()
}

/// The positive summands of the score of document `d` for query terms `qs`, in query order.
pub open spec fn parts_of(index: &SearchIndex, d: int, qs: Seq<Seq<char>>) -> Seq<
    (nat, nat, nat, nat),
>
    decreases qs.len(),
{
    if qs.len() == 0 {
        Seq::empty()
    } else {
        let rest = parts_of(index, d, qs.drop_last());
        let q = qs.last();
        if contributes(index, d, q) {
            rest.push(
                (
                    index.documents@[d].count_of(q),
                    index.documents@[d].total as nat,
                    index.df(q),
                    index.n_docs(),
                ),
            )
        } else {
            rest
        }
    }
}

/// The documents among the first `n` with a positive score, in index order, each with
/// the summands of its score.
pub open spec fn candidates_of(index: &SearchIndex, qs: Seq<Seq<char>>, n: nat) -> Seq<
    (nat, Seq<(nat, nat, nat, nat)>),
>
    decreases n,
{
    if n == 0 {
        Seq::empty()
    } else {
        let rest = candidates_of(index, qs, (n - 1) as nat);
        let parts = parts_of(index, n - 1, qs);
        if parts.len() > 0 {
            rest.push(((n - 1) as nat, parts))
        } else {
            rest
        }
    }
}

/// A document's score is positive exactly when some query term contributes to it.
pub proof fn lemma_parts_nonempty(index: &SearchIndex, d: int, qs: Seq<Seq<char>>)
    ensures
        parts_of(index, d, qs).len() > 0 <==> exists|k: int|
            0 <= k < qs.len() && contributes(index, d, #[trigger] qs[k]),
    decreases qs.len(),
{
    if qs.len() > 0 {
        let init = qs.drop_last();
        lemma_parts_nonempty(index, d, init);
        if exists|k: int| 0 <= k < qs.len() && contributes(index, d, #[trigger] qs[k]) {
            let k = choose|k: int| 0 <= k < qs.len() && contributes(index, d, #[trigger] qs[k]);
            if k < qs.len() - 1 {
                assert(init[k] == qs[k]);
            }
        }
        if exists|k: int| 0 <= k < init.len() && contributes(index, d, #[trigger] init[k]) {
            let k = choose|k: int| 0 <= k < init.len() && contributes(index, d, #[trigger] init[k]);
            assert(init[k] == qs[k]);
        }
    }
}

/// On an index of no documents every query yields no candidates.
pub proof fn lemma_empty_corpus(index: &SearchIndex, qs: Seq<Seq<char>>)
    requires
        index.n_docs() == 0,
    ensures
        candidates_of(index, qs, index.n_docs()).len() == 0,
{
}

/// The count that `entries` gives `t`.
pub fn count_in(entries: &Vec<TermCount>, t: &String) -> (r: u64)
    ensures
        r == lookup(entries@, t@),
{
    match find_term(entries, t) {
        Some(j) => entries[j].count,
        None => 0,
    }
}

impl SearchIndex {
    /// The document frequency of each of the terms `qs`.
    pub fn frequencies(&self, qs: &Vec<String>) -> (r: Vec<u64>)
        ensures
            r@.len() == qs@.len(),
            forall|k: int| 0 <= k < qs@.len() ==> r@[k] == self.df(#[trigger] qs@[k]@),
    {
        let mut out: Vec<u64> = Vec::new();
        let mut k: usize = 0;
        while k < qs.len()
            invariant
                k <= qs@.len(),
                out@.len() == k,
                forall|j: int| 0 <= j < k ==> out@[j] == self.df(#[trigger] qs@[j]@),
            decreases qs@.len() - k,
        {
            out.push(count_in(&self.doc_freq, &qs[k]));
            k = k + 1;
        }
        out
    }

    /// The positive summands of the score of document `d` for the query terms `qs`, whose
    /// document frequencies are `dfs`.
    pub fn score_parts(&self, d: usize, qs: &Vec<String>, dfs: &Vec<u64>) -> (r: Vec<ScorePart>)
        requires
            d < self.n_docs(),
            dfs@.len() == qs@.len(),
            forall|k: int| 0 <= k < qs@.len() ==> dfs@[k] == self.df(#[trigger] qs@[k]@),
        ensures
            part_views(r@) == parts_of(self, d as int, views(qs@)),
    {
        let doc = &self.documents[d];
        let n = self.documents.len();
        let mut out: Vec<ScorePart> = Vec::new();
        let mut k: usize = 0;
        while k < qs.len()
            invariant
                d < self.n_docs(),
                *doc == self.documents@[d as int],
                k <= qs@.len(),
                n == self.n_docs(),
                dfs@.len() == qs@.len(),
                forall|j: int| 0 <= j < qs@.len() ==> dfs@[j] == self.df(#[trigger] qs@[j]@),
                part_views(out@) == parts_of(self, d as int, views(qs@).subrange(0, k as int)),
            decreases qs@.len() - k,
        {
            let ghost sub = views(qs@).subrange(0, k + 1);
            assert(sub.drop_last() =~= views(qs@).subrange(0, k as int));
            assert(sub.last() == qs@[k as int]@);
            let count = count_in(&doc.terms, &qs[k]);
            let df = dfs[k];
            if count > 0 && df < n as u64 {
                let p = ScorePart { count, total: doc.total, df, docs: n as u64 };
                let ghost before = out@;
                out.push(p);
                assert(part_views(out@) =~= part_views(before).push(part_view(p)));
            }
            k = k + 1;
        }
        assert(views(qs@).subrange(0, k as int) =~= views(qs@));
        out
    }

    /// The documents whose score for `query` is positive, in index order, with the summands
    /// of their scores. A query without terms, or an index without documents, gives none.
    pub fn candidates(&self, query: &str) -> (r: Vec<Candidate>)
        ensures
            candidate_views(r@) == candidates_of(self, terms_of(query@), self.n_docs()),
    {
        let qs = tokenize(query);
        let dfs = self.frequencies(&qs);
        let mut out: Vec<Candidate> = Vec::new();
        let mut d: usize = 0;
        while d < self.documents.len()
            invariant
                d <= self.n_docs(),
                views(qs@) == terms_of(query@),
                dfs@.len() == qs@.len(),
                forall|j: int| 0 <= j < qs@.len() ==> dfs@[j] == self.df(#[trigger] qs@[j]@),
                candidate_views(out@) == candidates_of(self, terms_of(query@), d as nat),
            decreases self.n_docs() - d,
        {
            let parts = self.score_parts(d, &qs, &dfs);
            if parts.len() > 0 {
                let ghost before = out@;
                let ghost pv = part_views(parts@);
                let c = Candidate { doc: d, parts };
                out.push(c);
                assert(candidate_views(out@) =~= candidate_views(before).push((d as nat, pv)));
            }
            d = d + 1;
        }
        out
    }
}

/// Whether position `a` ranks before position `b`: a higher key first, and among equal
/// keys the earlier position.
pub open spec fn ranks_before(keys: Seq<u64>, a: int, b: int) -> bool {
    keys[a] > keys[b] || (keys[a] == keys[b] && a < b)
}

/// How many entries of `s` are true.
pub open spec fn count_true(s: Seq<bool>) -> nat
    decreases s.len(),
{
    if s.len() == 0 {
        0
    } else {
        count_true(s.drop_last()) + if s.last() {
            1nat
        } else {
            0nat
        }
    }
}

/// A sequence that is true everywhere counts its length.
proof fn lemma_count_true_all(s: Seq<bool>)
    requires
        forall|i: int| 0 <= i < s.len() ==> #[trigger] s[i],
    ensures
        count_true(s) == s.len(),
    decreases s.len(),
{
    if s.len() > 0 {
        let d = s.drop_last();
        assert forall|i: int| 0 <= i < d.len() implies #[trigger] d[i] by {
            assert(d[i] == s[i]);
        }
        lemma_count_true_all(d);
        assert(s[s.len() - 1]);
    }
}

/// Setting a false entry to true adds one to the count.
proof fn lemma_count_true_set(s: Seq<bool>, p: int)
    requires
        0 <= p < s.len(),
        !s[p],
    ensures
        count_true(s.update(p, true)) == count_true(s) + 1,
    decreases s.len(),
{
    let u = s.update(p, true);
    if p == s.len() - 1 {
        assert(u.drop_last() =~= s.drop_last());
    } else {
        assert(u.drop_last() =~= s.drop_last().update(p, true));
        assert(s.drop_last()[p] == s[p]);
        lemma_count_true_set(s.drop_last(), p);
    }
}

/// The positions of `keys` in rank order, highest key first and ties in position order,
/// cut to the first `limit`.
pub fn rank(keys: &Vec<u64>, limit: usize) -> (r: Vec<usize>)
    ensures
        r@.len() == if limit < keys@.len() {
            limit as int
        } else {
            keys@.len() as int
        },
        forall|i: int| 0 <= i < r@.len() ==> #[trigger] r@[i] < keys@.len(),
        forall|i: int, j: int|
            0 <= i < j < r@.len() ==> ranks_before(keys@, #[trigger] r@[i] as int, #[trigger] r@[j] as int),
        forall|i: int, p: int|
            0 <= i < r@.len() && 0 <= p < keys@.len() && (forall|k: int|
                0 <= k < r@.len() ==> #[trigger] r@[k] != p) ==> #[trigger] ranks_before(keys@, r@[i] as int, p),
{
    let n = keys.len();
    let want = if limit < n {
        limit
    } else {
        n
    };
    let mut taken: Vec<bool> = Vec::new();
    let mut z: usize = 0;
    while z < n
        invariant
            z <= n,
            n == keys@.len(),
            taken@.len() == z,
            forall|i: int| 0 <= i < z ==> !#[trigger] taken@[i],
        decreases n - z,
    {
        taken.push(false);
        z = z + 1;
    }
    proof {
        assert(count_true(taken@) == 0) by {
            lemma_count_none(taken@);
        }
    }
    let mut out: Vec<usize> = Vec::new();
    while out.len() < want
        invariant
            want <= n,
            n == keys@.len(),
            taken@.len() == n,
            out@.len() <= want,
            count_true(taken@) == out@.len(),
            forall|i: int| 0 <= i < out@.len() ==> #[trigger] out@[i] < n,
            forall|p: int| 0 <= p < n ==> (#[trigger] taken@[p] <==> exists|k: int|
                0 <= k < out@.len() && out@[k] == p),
            forall|i: int, j: int|
                0 <= i < j < out@.len() ==> ranks_before(keys@, #[trigger] out@[i] as int, #[trigger] out@[j] as int),
            forall|i: int, p: int|
                0 <= i < out@.len() && 0 <= p < n && !taken@[p] ==> #[trigger] ranks_before(keys@, out@[i] as int, p),
        decreases want - out@.len(),
    {
        let mut best: Option<usize> = None;
        let mut q: usize = 0;
        while q < n
            invariant
                q <= n,
                n == keys@.len(),
                taken@.len() == n,
                best matches Some(b) ==> b < q && !taken@[b as int],
                best is None ==> forall|p: int| 0 <= p < q ==> #[trigger] taken@[p],
                best matches Some(b) ==> forall|p: int|
                    0 <= p < q && !taken@[p] && p != b ==> ranks_before(keys@, b as int, p),
            decreases n - q,
        {
            if !taken[q] {
                match best {
                    None => {
                        best = Some(q);
                    },
                    Some(b) => {
                        if keys[q] > keys[b] {
                            best = Some(q);
                        }
                    },
                }
            }
            q = q + 1;
        }
        match best {
            None => {
                proof {
                    lemma_count_true_all(taken@);
                }
                assert(false);
            },
            Some(b) => {
                let ghost old_taken = taken@;
                let ghost old_out = out@;
                proof {
                    lemma_count_true_set(taken@, b as int);
                }
                taken.set(b, true);
                out.push(b);
                assert forall|p: int| 0 <= p < n implies (#[trigger] taken@[p] <==> exists|k: int|
                    0 <= k < out@.len() && out@[k] == p) by {
                    if p != b {
                        if old_taken[p] {
                            let k = choose|k: int| 0 <= k < old_out.len() && old_out[k] == p;
                            assert(out@[k] == p);
                        }
                        if exists|k: int| 0 <= k < out@.len() && out@[k] == p {
                            let k = choose|k: int| 0 <= k < out@.len() && out@[k] == p;
                            assert(k < old_out.len());
                            assert(old_out[k] == p);
                        }
                    } else {
                        assert(out@[old_out.len() as int] == p);
                    }
                }
                assert forall|i: int, j: int|
                    0 <= i < j < out@.len() implies ranks_before(keys@, #[trigger] out@[i] as int, #[trigger] out@[j] as int) by {
                    if j < old_out.len() {
                        assert(old_out[i] == out@[i] && old_out[j] == out@[j]);
                    } else {
                        assert(old_out[i] == out@[i]);
                    }
                }
                assert forall|i: int, p: int|
                    0 <= i < out@.len() && 0 <= p < n && !taken@[p] implies #[trigger] ranks_before(keys@, out@[i] as int, p) by {
                    if i < old_out.len() {
                        assert(old_out[i] == out@[i]);
                        assert(!old_taken[p]);
                    } else {
                        assert(p != b);
                    }
                }
            },
        }
    }
    assert forall|i: int, p: int|
        0 <= i < out@.len() && 0 <= p < keys@.len() && (forall|k: int|
            0 <= k < out@.len() ==> #[trigger] out@[k] != p) implies #[trigger] ranks_before(keys@, out@[i] as int, p) by {
        if taken@[p] {
            let k = choose|k: int| 0 <= k < out@.len() && out@[k] == p;
            assert(out@[k] != p);
        }
    }
    out
}

/// A sequence that is false everywhere counts zero.
proof fn lemma_count_none(s: Seq<bool>)
    requires
        forall|i: int| 0 <= i < s.len() ==> !#[trigger] s[i],
    ensures
        count_true(s) == 0,
    decreases s.len(),
{
    if s.len() > 0 {
        let d = s.drop_last();
        assert forall|i: int| 0 <= i < d.len() implies !#[trigger] d[i] by {
            assert(d[i] == s[i]);
        }
        lemma_count_none(d);
        assert(!s[s.len() - 1]);
    }
}

} // verus!
