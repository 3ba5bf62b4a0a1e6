//! One indexed document and the term tables it is built on.
use vstd::prelude::*;
use crate::text::views;

verus! {

/// A term and a count attached to it.
pub struct TermCount {
    pub term: String,
    pub count: u64,
}

/// The count that `entries` gives `t`: that of the last entry for `t`, 0 if there is none.
pub open spec fn lookup(entries: Seq<TermCount>, t: Seq<char>) -> nat
    decreases entries.len(),
{
    if entries.len() == 0 {
        0
    } else if entries.last().term@ == t {
        entries.last().count as nat
    } else {
        lookup(entries.drop_last(), t)
    }
}

/// The sum of all counts in `entries`.
pub open spec fn sum_counts(entries: Seq<TermCount>) -> nat
    decreases entries.len(),
{
    if entries.len() == 0 {
        0
    } else {
        sum_counts(entries.drop_last()) + entries.last().count as nat
    }
}

/// Each term at most once, each count positive.
pub open spec fn table_wf(entries: Seq<TermCount>) -> bool {
    &&& forall|i: int, j: int|
        0 <= i < j < entries.len() ==> #[trigger] entries[i].term@ != #[trigger] entries[j].term@
    &&& forall|i: int| 0 <= i < entries.len() ==> #[trigger] entries[i].count > 0
}

/// How many times `t` occurs in `ts`.
pub open spec fn occurrences(ts: Seq<Seq<char>>, t: Seq<char>) -> nat
    decreases ts.len(),
{
    if ts.len() == 0 {
        0
    } else {
        occurrences(ts.drop_last(), t) + if ts.last() == t {
            1nat
        } else {
            0nat
        }
    }
}

/// A term without an entry has count 0.
pub proof fn lemma_lookup_absent(entries: Seq<TermCount>, t: Seq<char>)
    requires
        forall|j: int| 0 <= j < entries.len() ==> #[trigger] entries[j].term@ != t,
    ensures
        lookup(entries, t) == 0,
    decreases entries.len(),
{
    if entries.len() > 0 {
        lemma_lookup_absent(entries.drop_last(), t);
    }
}

/// In a table with distinct terms, the lookup of an entry's term is that entry's count.
pub proof fn lemma_lookup_at(entries: Seq<TermCount>, j: int)
    requires
        table_wf(entries),
        0 <= j < entries.len(),
    ensures
        lookup(entries, entries[j].term@) == entries[j].count,
    decreases entries.len(),
{
    if j < entries.len() - 1 {
        assert(entries.drop_last()[j] == entries[j]);
        lemma_lookup_at(entries.drop_last(), j);
    }
}

/// No single count exceeds the sum of all counts.
pub proof fn lemma_count_le_sum(entries: Seq<TermCount>, j: int)
    requires
        0 <= j < entries.len(),
    ensures
        entries[j].count <= sum_counts(entries),
    decreases entries.len(),
{
    if j < entries.len() - 1 {
        assert(entries.drop_last()[j] == entries[j]);
        lemma_count_le_sum(entries.drop_last(), j);
    }
}

/// Raising the count at `j` by one raises the lookup of that term, and the sum, by one.
pub proof fn lemma_bump(entries: Seq<TermCount>, j: int, e: TermCount)
    requires
        table_wf(entries),
        0 <= j < entries.len(),
        e.term@ == entries[j].term@,
        e.count == entries[j].count + 1,
    ensures
        forall|t: Seq<char>|
            #[trigger] lookup(entries.update(j, e), t) == lookup(entries, t) + if t == e.term@ {
                1nat
            } else {
                0nat
            },
        sum_counts(entries.update(j, e)) == sum_counts(entries) + 1,
        table_wf(entries.update(j, e)),
    decreases entries.len(),
{
    let n = entries.update(j, e);
    if j == entries.len() - 1 {
        assert(n.drop_last() =~= entries.drop_last());
        assert forall|t: Seq<char>|
            #[trigger] lookup(n, t) == lookup(entries, t) + if t == e.term@ {
                1nat
            } else {
                0nat
            } by {}
    } else {
        let d = entries.drop_last();
        assert(n.drop_last() =~= d.update(j, e));
        assert(d[j] == entries[j]);
        lemma_bump(d, j, e);
        assert forall|t: Seq<char>|
            #[trigger] lookup(n, t) == lookup(entries, t) + if t == e.term@ {
                1nat
            } else {
                0nat
            } by {
            assert(n.last() == entries.last());
            assert(entries[j].term@ != entries[entries.len() - 1].term@);
            assert(lookup(d.update(j, e), t) == lookup(d, t) + if t == e.term@ {
                1nat
            } else {
                0nat
            });
            if t == e.term@ {
                assert(entries.last().term@ != t);
                assert(lookup(n, t) == lookup(n.drop_last(), t));
                assert(lookup(entries, t) == lookup(d, t));
            } else if entries.last().term@ == t {
                assert(lookup(n, t) == entries.last().count);
            } else {
                assert(lookup(n, t) == lookup(n.drop_last(), t));
                assert(lookup(entries, t) == lookup(d, t));
            }
        }
    }
    assert forall|a: int, b: int| 0 <= a < b < n.len() implies #[trigger] n[a].term@
        != #[trigger] n[b].term@ by {
        assert(entries[a].term@ != entries[b].term@);
    }
    assert forall|a: int| 0 <= a < n.len() implies #[trigger] n[a].count > 0 by {
        assert(entries[a].count > 0);
    }
}

/// When the entry at `j` is the last one for its term, the lookup of that term is its count.
pub proof fn lemma_lookup_last(entries: Seq<TermCount>, j: int)
    requires
        0 <= j < entries.len(),
        forall|k: int| j < k < entries.len() ==> #[trigger] entries[k].term@ != entries[j].term@,
    ensures
        lookup(entries, entries[j].term@) == entries[j].count,
    decreases entries.len(),
{
    if j < entries.len() - 1 {
        let d = entries.drop_last();
        assert(d[j] == entries[j]);
        assert(entries[entries.len() - 1].term@ != entries[j].term@);
        assert forall|k: int| j < k < d.len() implies #[trigger] d[k].term@ != d[j].term@ by {
            assert(d[k] == entries[k]);
        }
        lemma_lookup_last(d, j);
    }
}

/// The position of the last entry of `entries` for `t`, if there is one.
pub fn find_term(entries: &Vec<TermCount>, t: &String) -> (r: Option<usize>)
    ensures
        r matches Some(j) ==> {
            &&& j < entries@.len()
            &&& entries@[j as int].term@ == t@
            &&& lookup(entries@, t@) == entries@[j as int].count
        },
        r is None ==> forall|j: int| 0 <= j < entries@.len() ==> #[trigger] entries@[j].term@ != t@,
        r is None ==> lookup(entries@, t@) == 0,
{
    let mut k: usize = entries.len();
    while k > 0
        invariant
            k <= entries@.len(),
            forall|j: int| k <= j < entries@.len() ==> #[trigger] entries@[j].term@ != t@,
        decreases k,
    {
        k = k - 1;
        if entries[k].term == *t {
            proof {
                lemma_lookup_last(entries@, k as int);
            }
            return Some(k);
        }
    }
    proof {
        lemma_lookup_absent(entries@, t@);
    }
    None
}

/// A document of the corpus as the index holds it. The term frequency of a term is its
/// count divided by `total`, the number of terms the document yielded.
pub struct IndexedDocument {
    pub path: String,
    pub title: String,
    pub description: String,
    pub terms: Vec<TermCount>,
    pub total: u64,
}

impl IndexedDocument {
    /// Distinct terms with positive counts that add up to `total`, which is positive;
    /// so the frequencies add up to one.
    pub open spec fn wf(&self) -> bool {
        &&& table_wf(self.terms@)
        &&& sum_counts(self.terms@) == self.total
        &&& self.total > 0
    }

    /// How many times `t` occurs among the document's terms.
    pub open spec fn count_of(&self, t: Seq<char>) -> nat {
        lookup(self.terms@, t)
    }

    /// Builds the document from the terms of its indexable text; none when there are no terms.
    pub fn from_terms(path: String, title: String, description: String, terms: Vec<String>) -> (r:
        Option<Self>)
        ensures
            r is None <==> terms@.len() == 0,
            r matches Some(d) ==> {
                &&& d.wf()
                &&& d.path@ == path@
                &&& d.title@ == title@
                &&& d.description@ == description@
                &&& d.total == terms@.len()
                &&& forall|t: Seq<char>| #[trigger] d.count_of(t) == occurrences(views(terms@), t)
            },
    {
        if terms.len() == 0 {
            return None;
        }
        let mut entries: Vec<TermCount> = Vec::new();
        let mut i: usize = 0;
        while i < terms.len()
            invariant
                i <= terms@.len(),
                table_wf(entries@),
                sum_counts(entries@) == i,
                forall|t: Seq<char>|
                    #[trigger] lookup(entries@, t) == occurrences(
                        views(terms@).subrange(0, i as int),
                        t,
                    ),
            decreases terms@.len() - i,
        {
            let ghost before = entries@;
            let ghost pre = views(terms@).subrange(0, i as int);
            let ghost post = views(terms@).subrange(0, i + 1);
            assert(post.drop_last() =~= pre);
            assert(post.last() == terms@[i as int]@);
            match find_term(&entries, &terms[i]) {
                Some(j) => {
                    proof {
                        lemma_count_le_sum(entries@, j as int);
                    }
                    let e = TermCount { term: entries[j].term.clone(), count: entries[j].count + 1 };
                    proof {
                        lemma_bump(entries@, j as int, e);
                    }
                    entries.set(j, e);
                },
                None => {
                    let e = TermCount { term: terms[i].clone(), count: 1 };
                    entries.push(e);
                    assert(entries@.drop_last() =~= before);
                    proof {
                        lemma_lookup_absent(before, terms@[i as int]@);
                    }
                    assert forall|a: int, b: int|
                        0 <= a < b < entries@.len() implies #[trigger] entries@[a].term@
                        != #[trigger] entries@[b].term@ by {
                        if b < before.len() {
                            assert(before[a].term@ != before[b].term@);
                        }
                    }
                    assert forall|a: int| 0 <= a < entries@.len() implies #[trigger] entries@[a].count
                        > 0 by {
                        if a < before.len() {
                            assert(before[a].count > 0);
                        }
                    }
                },
            }
            i = i + 1;
        }
        assert(views(terms@).subrange(0, i as int) =~= views(terms@));
        Some(
            IndexedDocument { path, title, description, terms: entries, total: terms.len() as u64 },
        )
    }
}

} // verus!
