//! The corpus-wide index: documents in discovery order and the document frequency of each term.
use vstd::prelude::*;
use crate::document::{
    IndexedDocument, TermCount, find_term, lemma_bump, lemma_lookup_absent, lemma_lookup_at,
    lookup, table_wf,
};

verus! {

/// Whether some entry of `es` is for `t`.
pub open spec fn has_term(es: Seq<TermCount>, t: Seq<char>) -> bool {
    exists|k: int| 0 <= k < es.len() && #[trigger] es[k].term@ == t
}

/// How many of `docs` contain `t`.
pub open spec fn docs_with(docs: Seq<IndexedDocument>, t: Seq<char>) -> nat
    decreases docs.len(),
{
    if docs.len() == 0 {
        0
    } else {
        docs_with(docs.drop_last(), t) + if docs.last().count_of(t) > 0 {
            1nat
        } else {
            0nat
        }
    }
}

/// Every document well formed.
pub open spec fn all_wf(docs: Seq<IndexedDocument>) -> bool {
    forall|i: int| 0 <= i < docs.len() ==> (#[trigger] docs[i]).wf()
}

/// At most all documents contain a term.
pub proof fn lemma_docs_with_le(docs: Seq<IndexedDocument>, t: Seq<char>)
    ensures
        docs_with(docs, t) <= docs.len(),
    decreases docs.len(),
{
    if docs.len() > 0 {
        lemma_docs_with_le(docs.drop_last(), t);
    }
}

/// In a table of positive counts, a term has a positive count exactly when it has an entry.
pub proof fn lemma_present_iff_positive(es: Seq<TermCount>, t: Seq<char>)
    requires
        table_wf(es),
    ensures
        lookup(es, t) > 0 <==> has_term(es, t),
{
    if has_term(es, t) {
        let k = choose|k: int| 0 <= k < es.len() && #[trigger] es[k].term@ == t;
        lemma_lookup_at(es, k);
        assert(es[k].count > 0);
    } else {
        assert forall|j: int| 0 <= j < es.len() implies #[trigger] es[j].term@ != t by {}
        lemma_lookup_absent(es, t);
    }
}

/// The index. The inverse document frequency of a term is ln(N / df), where N is the
/// number of documents and df the number of documents that contain the term.
pub struct SearchIndex {
    pub fingerprint: u64,
    pub documents: Vec<IndexedDocument>,
    pub doc_freq: Vec<TermCount>,
}

impl SearchIndex {
    /// Well-formed documents, and a frequency table that counts, for every term, the
    /// documents that contain it: a term that no document holds has no entry.
    pub open spec fn wf(&self) -> bool {
        &&& all_wf(self.documents@)
        &&& table_wf(self.doc_freq@)
        &&& forall|t: Seq<char>| #[trigger] lookup(self.doc_freq@, t) == docs_with(self.documents@, t)
    }

    /// The number of documents, N.
    pub open spec fn n_docs(&self) -> nat {
        self.documents@.len()
    }

    /// The document frequency of `t`.
    pub open spec fn df(&self, t: Seq<char>) -> nat {
        lookup(self.doc_freq@, t)
    }

    /// The idf of `t` is the natural logarithm of `idf_ratio(t).0 / idf_ratio(t).1`.
    pub open spec fn idf_ratio(&self, t: Seq<char>) -> (nat, nat) {
        (self.n_docs(), self.df(t))
    }

    /// Counts, for every term, the documents that contain it.
    pub fn build(fingerprint: u64, documents: Vec<IndexedDocument>) -> (r: Self)
        requires
            all_wf(documents@),
        ensures
            r.wf(),
            r.fingerprint == fingerprint,
            r.documents@ == documents@,
    {
        let mut freq: Vec<TermCount> = Vec::new();
        let mut i: usize = 0;
        while i < documents.len()
            invariant
                i <= documents@.len(),
                all_wf(documents@),
                table_wf(freq@),
                forall|t: Seq<char>|
                    #[trigger] lookup(freq@, t) == docs_with(documents@.subrange(0, i as int), t),
            decreases documents@.len() - i,
        {
            let doc = &documents[i];
            let ghost prefix = documents@.subrange(0, i as int);
            assert(doc.wf());
            let mut j: usize = 0;
            while j < doc.terms.len()
                invariant
                    i < documents@.len(),
                    documents@.len() <= usize::MAX,
                    doc == documents@[i as int],
                    doc.wf(),
                    j <= doc.terms@.len(),
                    prefix == documents@.subrange(0, i as int),
                    table_wf(freq@),
                    forall|t: Seq<char>|
                        #[trigger] lookup(freq@, t) == docs_with(prefix, t) + if has_term(
                            doc.terms@.subrange(0, j as int),
                            t,
                        ) {
                            1nat
                        } else {
                            0nat
                        },
                decreases doc.terms@.len() - j,
            {
                let ghost before = freq@;
                let ghost u = doc.terms@[j as int].term@;
                let ghost old_part = doc.terms@.subrange(0, j as int);
                let ghost new_part = doc.terms@.subrange(0, j + 1);
                assert(!has_term(old_part, u)) by {
                    if has_term(old_part, u) {
                        let k = choose|k: int| 0 <= k < old_part.len() && #[trigger] old_part[k].term@ == u;
                        assert(doc.terms@[k].term@ != doc.terms@[j as int].term@);
                    }
                };
                assert forall|t: Seq<char>| #[trigger] has_term(new_part, t) == (has_term(old_part, t) || t == u) by {
                    if has_term(old_part, t) {
                        let k = choose|k: int| 0 <= k < old_part.len() && #[trigger] old_part[k].term@ == t;
                        assert(new_part[k] == old_part[k]);
                    }
                    if t == u {
                        assert(new_part[j as int].term@ == u);
                    }
                    if has_term(new_part, t) {
                        let k = choose|k: int| 0 <= k < new_part.len() && #[trigger] new_part[k].term@ == t;
                        if k < j {
                            assert(old_part[k] == new_part[k]);
                        }
                    }
                };
                match find_term(&freq, &doc.terms[j].term) {
                    Some(k) => {
                        proof {
                            lemma_lookup_at(freq@, k as int);
                            lemma_docs_with_le(prefix, u);
                            assert(freq@[k as int].count == lookup(freq@, u));
                            assert(lookup(freq@, u) == docs_with(prefix, u));
                            assert(prefix.len() == i);
                            assert(freq@[k as int].count <= i);
                            assert(i < documents@.len());
                        }
                        let e = TermCount { term: freq[k].term.clone(), count: freq[k].count + 1 };
                        proof {
                            lemma_bump(freq@, k as int, e);
                        }
                        freq.set(k, e);
                        assert forall|t: Seq<char>| #[trigger] lookup(freq@, t) == lookup(before, t) + if t == u {
                            1nat
                        } else {
                            0nat
                        } by {
                            assert(freq@ == before.update(k as int, e));
                        }
                    },
                    None => {
                        let e = TermCount { term: doc.terms[j].term.clone(), count: 1 };
                        freq.push(e);
                        assert(freq@.drop_last() =~= before);
                        proof {
                            lemma_lookup_absent(before, u);
                        }
                        assert forall|a: int, b: int|
                            0 <= a < b < freq@.len() implies #[trigger] freq@[a].term@
                            != #[trigger] freq@[b].term@ by {
                            if b < before.len() {
                                assert(before[a].term@ != before[b].term@);
                            }
                        }
                        assert forall|a: int| 0 <= a < freq@.len() implies #[trigger] freq@[a].count
                            > 0 by {
                            if a < before.len() {
                                assert(before[a].count > 0);
                            }
                        }
                        assert forall|t: Seq<char>| #[trigger] lookup(freq@, t) == lookup(before, t) + if t == u {
                            1nat
                        } else {
                            0nat
                        } by {
                            assert(freq@.last().term@ == u);
                        }
                    },
                }
                assert forall|t: Seq<char>|
                    #[trigger] lookup(freq@, t) == docs_with(prefix, t) + if has_term(new_part, t) {
                        1nat
                    } else {
                        0nat
                    } by {
                    assert(lookup(before, t) == docs_with(prefix, t) + if has_term(old_part, t) {
                        1nat
                    } else {
                        0nat
                    });
                    assert(has_term(new_part, t) == (has_term(old_part, t) || t == u));
                }
                j = j + 1;
            }
            proof {
                assert(doc.terms@.subrange(0, j as int) =~= doc.terms@);
                let next = documents@.subrange(0, i + 1);
                assert(next.drop_last() =~= prefix);
                assert(next.last() == *doc);
                assert forall|t: Seq<char>|
                    #[trigger] lookup(freq@, t) == docs_with(next, t) by {
                    lemma_present_iff_positive(doc.terms@, t);
                }
            }
            i = i + 1;
        }
        assert(documents@.subrange(0, i as int) =~= documents@);
        SearchIndex { fingerprint, documents, doc_freq: freq }
    }
}

/// A term that every document contains is counted in every document.
pub proof fn lemma_docs_with_all(docs: Seq<IndexedDocument>, t: Seq<char>)
    requires
        forall|i: int| 0 <= i < docs.len() ==> (#[trigger] docs[i]).count_of(t) > 0,
    ensures
        docs_with(docs, t) == docs.len(),
    decreases docs.len(),
{
    if docs.len() > 0 {
        let d = docs.drop_last();
        assert forall|i: int| 0 <= i < d.len() implies (#[trigger] d[i]).count_of(t) > 0 by {
            assert(d[i] == docs[i]);
        }
        lemma_docs_with_all(d, t);
        assert(docs.last() == docs[docs.len() - 1]);
    }
}

/// A term that no document contains is counted nowhere.
pub proof fn lemma_docs_with_none(docs: Seq<IndexedDocument>, t: Seq<char>)
    requires
        forall|i: int| 0 <= i < docs.len() ==> (#[trigger] docs[i]).count_of(t) == 0,
    ensures
        docs_with(docs, t) == 0,
    decreases docs.len(),
{
    if docs.len() > 0 {
        let d = docs.drop_last();
        assert forall|i: int| 0 <= i < d.len() implies (#[trigger] d[i]).count_of(t) == 0 by {
            assert(d[i] == docs[i]);
        }
        lemma_docs_with_none(d, t);
        assert(docs.last() == docs[docs.len() - 1]);
    }
}

/// A term that exactly one document contains is counted once.
pub proof fn lemma_docs_with_one(docs: Seq<IndexedDocument>, t: Seq<char>, k: int)
    requires
        0 <= k < docs.len(),
        docs[k].count_of(t) > 0,
        forall|i: int| 0 <= i < docs.len() && i != k ==> (#[trigger] docs[i]).count_of(t) == 0,
    ensures
        docs_with(docs, t) == 1,
    decreases docs.len(),
{
    let d = docs.drop_last();
    assert(docs.last() == docs[docs.len() - 1]);
    if k == docs.len() - 1 {
        assert forall|i: int| 0 <= i < d.len() implies (#[trigger] d[i]).count_of(t) == 0 by {
            assert(d[i] == docs[i]);
        }
        lemma_docs_with_none(d, t);
    } else {
        assert forall|i: int| 0 <= i < d.len() && i != k implies (#[trigger] d[i]).count_of(t)
            == 0 by {
            assert(d[i] == docs[i]);
        }
        assert(d[k] == docs[k]);
        lemma_docs_with_one(d, t, k);
    }
}

/// A term that every document contains has document frequency N, so its idf, ln(N / N),
/// is zero.
pub proof fn lemma_idf_zero_when_everywhere(index: &SearchIndex, t: Seq<char>)
    requires
        index.wf(),
        forall|i: int| 0 <= i < index.n_docs() ==> (#[trigger] index.documents@[i]).count_of(t) > 0,
    ensures
        index.idf_ratio(t).0 == index.idf_ratio(t).1,
{
    lemma_docs_with_all(index.documents@, t);
}

/// A term that exactly one document contains has document frequency one, so its idf is
/// ln(N).
pub proof fn lemma_idf_single_document(index: &SearchIndex, t: Seq<char>, k: int)
    requires
        index.wf(),
        0 <= k < index.n_docs(),
        index.documents@[k].count_of(t) > 0,
        forall|i: int|
            0 <= i < index.n_docs() && i != k ==> (#[trigger] index.documents@[i]).count_of(t) == 0,
    ensures
        index.idf_ratio(t) == (index.n_docs(), 1nat),
{
    lemma_docs_with_one(index.documents@, t, k);
}

} // verus!
