use rust_builder::document::{IndexedDocument, TermCount};
use rust_builder::engine::{Answer, SearchState, BUILDING_TITLE};
use rust_builder::index::SearchIndex;
use rust_builder::tokenizer::tokenize;
use std::sync::Arc;
use tokio::sync::RwLock;

type StoredTerms = Vec<(String, u64)>;
type StoredDoc = (String, String, String, StoredTerms, u64);
type Stored = (u64, Vec<StoredDoc>, StoredTerms);

fn doc(path: &str, text: &str) -> IndexedDocument {
    IndexedDocument::from_terms(path.to_string(), path.to_uppercase(), String::new(), tokenize(text)).unwrap()
}

fn corpus() -> SearchIndex {
    SearchIndex::build(
        99,
        vec![doc("a", "vector push pop"), doc("b", "vector capacity"), doc("c", "hashmap insert")],
    )
}

fn terms_out(ts: &[TermCount]) -> StoredTerms {
    ts.iter().map(|t| (t.term.clone(), t.count)).collect()
}

fn terms_in(ts: StoredTerms) -> Vec<TermCount> {
    ts.into_iter().map(|(term, count)| TermCount { term, count }).collect()
}

fn to_stored(index: &SearchIndex) -> Stored {
    (
        index.fingerprint,
        index
            .documents
            .iter()
            .map(|d| (d.path.clone(), d.title.clone(), d.description.clone(), terms_out(&d.terms), d.total))
            .collect(),
        terms_out(&index.doc_freq),
    )
}

fn from_stored(s: Stored) -> SearchIndex {
    SearchIndex {
        fingerprint: s.0,
        documents: s
            .1
            .into_iter()
            .map(|(path, title, description, terms, total)| IndexedDocument {
                path,
                title,
                description,
                terms: terms_in(terms),
                total,
            })
            .collect(),
        doc_freq: terms_in(s.2),
    }
}

fn scores(index: &SearchIndex, query: &str) -> Vec<(usize, f64)> {
    index
        .candidates(query)
        .iter()
        .map(|c| {
            let s: f64 = c
                .parts
                .iter()
                .map(|p| (p.count as f64 / p.total as f64) * (p.docs as f64 / p.df as f64).ln())
                .sum();
            (c.doc, s)
        })
        .collect()
}

#[test]
fn cached_bytes_round_trip() {
    let index = corpus();
    let bytes = bincode::serialize(&to_stored(&index)).unwrap();
    let back = from_stored(bincode::deserialize(&bytes).unwrap());
    assert_eq!(back.fingerprint, index.fingerprint);
    assert_eq!(back.documents.len(), index.documents.len());
    assert_eq!(scores(&back, "vector pop"), scores(&index, "vector pop"));
    assert_eq!(bincode::serialize(&to_stored(&back)).unwrap(), bytes);
    // The fingerprint leads the bytes, little-endian.
    assert_eq!(&bytes[..8], &99u64.to_le_bytes());
}

#[test]
fn concurrent_queries_while_building_get_the_placeholder() {
    let rt = tokio::runtime::Runtime::new().unwrap();
    rt.block_on(async {
        let state = Arc::new(RwLock::new(SearchState::new()));
        let mut tasks = Vec::new();
        for i in 0..100 {
            let state = state.clone();
            tasks.push(tokio::spawn(async move {
                let guard = state.read().await;
                match guard.answer(&format!("vector {}", i)) {
                    Answer::Pending(h) => h.title,
                    _ => String::new(),
                }
            }));
        }
        for t in tasks {
            assert_eq!(t.await.unwrap(), BUILDING_TITLE);
        }
        state.write().await.finish(Ok(corpus()));
        let guard = state.read().await;
        assert!(matches!(guard.answer("vector"), Answer::Found(c) if c.len() == 2));
    });
}
