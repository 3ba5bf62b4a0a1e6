use rust_builder::document::IndexedDocument;
use rust_builder::engine::{adopt_cached, cached_index_for, index_for, root_fingerprint, Answer, SearchState};
use rust_builder::extract::{extract_document, shorten_text};
use rust_builder::index::SearchIndex;
use rust_builder::query::{rank, Candidate, MAX_RESULTS};
use rust_builder::tokenizer::tokenize;

fn doc(path: &str, text: &str) -> IndexedDocument {
    IndexedDocument::from_terms(path.to_string(), path.to_string(), String::new(), tokenize(text)).unwrap()
}

fn corpus() -> SearchIndex {
    SearchIndex::build(
        7,
        vec![
            doc("a", "vector push pop"),
            doc("b", "vector capacity"),
            doc("c", "hashmap insert"),
        ],
    )
}

fn score(c: &Candidate) -> f64 {
    c.parts
        .iter()
        .map(|p| (p.count as f64 / p.total as f64) * (p.docs as f64 / p.df as f64).ln())
        .sum()
}

fn ranked_paths(index: &SearchIndex, query: &str) -> Vec<String> {
    let cands = index.candidates(query);
    let keys: Vec<u64> = cands.iter().map(|c| score(c).to_bits()).collect();
    rank(&keys, MAX_RESULTS)
        .into_iter()
        .map(|i| index.documents[cands[i].doc].path.clone())
        .collect()
}

fn count(d: &IndexedDocument, t: &str) -> u64 {
    d.terms.iter().find(|e| e.term == t).map(|e| e.count).unwrap_or(0)
}

fn df(index: &SearchIndex, t: &str) -> u64 {
    index.doc_freq.iter().find(|e| e.term == t).map(|e| e.count).unwrap_or(0)
}

#[test]
fn tokenize_lowercases_splits_and_drops_short_words() {
    assert_eq!(tokenize("Vec::push pops an Item"), vec!["vec", "push", "pops", "item"]);
    assert_eq!(tokenize("HashMap<K, V>"), vec!["hashmap"]);
    assert_eq!(tokenize("a to be"), Vec::<String>::new());
    assert_eq!(tokenize(""), Vec::<String>::new());
}

#[test]
fn tokenize_counts_bytes_not_characters() {
    // "éa" takes three bytes in UTF-8 and is kept; "ab" takes two and is dropped.
    assert_eq!(tokenize("éa ab"), vec!["éa"]);
}

#[test]
fn tokenize_keeps_duplicates_in_order() {
    assert_eq!(tokenize("push pop push"), vec!["push", "pop", "push"]);
}

#[test]
fn term_counts_match_occurrences_and_sum_to_total() {
    let d = doc("x", "push pop push vector");
    assert_eq!(d.total, 4);
    assert_eq!(count(&d, "push"), 2);
    assert_eq!(count(&d, "pop"), 1);
    assert_eq!(count(&d, "vector"), 1);
    assert_eq!(count(&d, "absent"), 0);
    let sum: u64 = d.terms.iter().map(|e| e.count).sum();
    assert_eq!(sum, d.total);
    let tf_sum: f64 = d.terms.iter().map(|e| e.count as f64 / d.total as f64).sum();
    assert!((tf_sum - 1.0).abs() < 1e-12);
    assert!((count(&d, "push") as f64 / d.total as f64 - 0.5).abs() < 1e-12);
}

#[test]
fn document_without_terms_is_dropped() {
    assert!(IndexedDocument::from_terms("p".to_string(), "t".to_string(), String::new(), tokenize("a b")).is_none());
}

#[test]
fn idf_is_zero_for_a_term_in_every_document() {
    let index = SearchIndex::build(1, vec![doc("a", "vector push"), doc("b", "vector pop")]);
    assert_eq!(df(&index, "vector"), 2);
    let idf = (index.documents.len() as f64 / df(&index, "vector") as f64).ln();
    assert_eq!(idf, 0.0);
    // Such a term never makes a document match.
    assert!(index.candidates("vector").is_empty());
}

#[test]
fn idf_is_ln_n_for_a_term_in_one_document() {
    let index = corpus();
    assert_eq!(df(&index, "hashmap"), 1);
    let idf = (index.documents.len() as f64 / df(&index, "hashmap") as f64).ln();
    assert!((idf - 3f64.ln()).abs() < 1e-12);
    assert_eq!(df(&index, "nothing"), 0);
}

#[test]
fn vector_query_ranks_a_and_b_and_leaves_out_c() {
    let index = corpus();
    let paths = ranked_paths(&index, "vector");
    assert_eq!(paths.len(), 2);
    assert!(paths.contains(&"a".to_string()));
    assert!(paths.contains(&"b".to_string()));
    assert!(!paths.contains(&"c".to_string()));
    // B has the higher term frequency (1/2 against 1/3).
    assert_eq!(paths, vec!["b", "a"]);
}

#[test]
fn unknown_term_gives_no_results() {
    let index = corpus();
    assert!(index.candidates("nonexistentterm123").is_empty());
    assert!(ranked_paths(&index, "nonexistentterm123").is_empty());
}

#[test]
fn query_without_terms_gives_no_results() {
    assert!(corpus().candidates("a, b!").is_empty());
}

#[test]
fn empty_corpus_answers_every_query_with_nothing() {
    let index = SearchIndex::build(3, Vec::new());
    for q in ["vector", "hashmap insert", "x", "anything at all"] {
        assert!(index.candidates(q).is_empty());
    }
}

#[test]
fn score_parts_carry_counts_and_frequencies() {
    let index = corpus();
    let cands = index.candidates("vector pop");
    assert_eq!(cands.len(), 2);
    assert_eq!(cands[0].doc, 0);
    assert_eq!(cands[0].parts.len(), 2);
    let p = &cands[0].parts[0];
    assert_eq!((p.count, p.total, p.df, p.docs), (1, 3, 2, 3));
    let q = &cands[0].parts[1];
    assert_eq!((q.count, q.total, q.df, q.docs), (1, 3, 1, 3));
    assert!((score(&cands[0]) - ((1.5f64).ln() / 3.0 + 3f64.ln() / 3.0)).abs() < 1e-12);
}

#[test]
fn rank_orders_by_key_then_position() {
    assert_eq!(rank(&vec![5, 7, 7, 1], 2), vec![1, 2]);
    assert_eq!(rank(&vec![5, 7, 7, 1], 15), vec![1, 2, 0, 3]);
    assert_eq!(rank(&vec![], 15), Vec::<usize>::new());
    assert_eq!(rank(&vec![3, 3, 3], 3), vec![0, 1, 2]);
}

#[test]
fn rank_keeps_at_most_the_limit() {
    let keys: Vec<u64> = (0..40).collect();
    let r = rank(&keys, MAX_RESULTS);
    assert_eq!(r.len(), 15);
    assert_eq!(r[0], 39);
    assert_eq!(r[14], 25);
}

#[test]
fn building_state_answers_every_query_with_the_placeholder() {
    let state = SearchState::new();
    for i in 0..100 {
        match state.answer(&format!("query {}", i)) {
            Answer::Pending(h) => {
                assert_eq!(h.title, "Indexing in progress...");
                assert_eq!(
                    h.description,
                    "The documentation index is currently being built. Please try again in a few seconds."
                );
                assert_eq!(h.path, "");
            }
            _ => panic!("expected the placeholder"),
        }
    }
}

#[test]
fn failed_state_carries_the_message() {
    let mut state = SearchState::new();
    state.finish(Err("disk gone".to_string()));
    match state.answer("vector") {
        Answer::Unavailable(h) => {
            assert_eq!(h.title, "Search Unavailable");
            assert_eq!(h.description, "Indexing failed: disk gone");
        }
        _ => panic!("expected the failure record"),
    }
}

#[test]
fn state_changes_only_once() {
    let mut state = SearchState::new();
    state.finish(Ok(corpus()));
    state.finish(Err("late".to_string()));
    match state.answer("vector") {
        Answer::Found(c) => assert_eq!(c.len(), 2),
        _ => panic!("expected results"),
    }
}

#[test]
fn cache_is_adopted_only_for_the_same_root() {
    let cached = corpus();
    let kept = adopt_cached(Some(cached), 7).unwrap();
    assert_eq!(kept.fingerprint, 7);
    assert_eq!(kept.documents.len(), 3);
    assert_eq!(kept.documents[2].path, "c");
    assert!(adopt_cached(Some(corpus()), 8).is_none());
    assert!(adopt_cached(None, 7).is_none());
}

#[test]
fn cache_for_a_root_is_used_verbatim() {
    let fresh = index_for("/docs/root", vec![doc("a", "vector push pop")]);
    assert_eq!(fresh.fingerprint, root_fingerprint("/docs/root"));
    let again = cached_index_for("/docs/root", Some(fresh)).unwrap();
    assert_eq!(again.documents[0].path, "a");
    assert_eq!(again.doc_freq.len(), 3);
    let other = index_for("/other/root", vec![doc("a", "vector")]);
    assert!(cached_index_for("/docs/root", Some(other)).is_none());
}

#[test]
fn extract_reads_title_and_description() {
    let html = "<html><body><h1 class=\"fqn\">  Vec  </h1><div class=\"docblock\"><p> A contiguous growable array type. </p></div></body></html>";
    let d = extract_document(html, "struct.Vec", "std/vec/struct.Vec.html".to_string()).unwrap();
    assert_eq!(d.title, "Vec");
    assert_eq!(d.description, "A contiguous growable array type.");
    assert_eq!(d.path, "std/vec/struct.Vec.html");
    assert_eq!(d.total, 5);
    assert_eq!(count(&d, "growable"), 1);
}

#[test]
fn extract_falls_back_to_the_file_stem() {
    let html = "<html><body><p>no heading here</p></body></html>";
    let d = extract_document(html, "index", "index.html".to_string()).unwrap();
    assert_eq!(d.title, "index");
    assert_eq!(d.description, "");
    assert_eq!(d.total, 1);
}

#[test]
fn extract_drops_a_page_without_terms() {
    let html = "<html><body><h1 class=\"main-heading\">io</h1></body></html>";
    assert!(extract_document(html, "x", "x.html".to_string()).is_none());
}

#[test]
fn long_descriptions_are_cut() {
    let long: String = "abcdefghij".repeat(25);
    let short = shorten_text(&long);
    assert_eq!(short.chars().count(), 203);
    assert!(short.ends_with("..."));
    assert_eq!(&short[..200], &long[..200]);
    assert_eq!(shorten_text("brief"), "brief");
    let exact: String = "x".repeat(200);
    assert_eq!(shorten_text(&exact), exact);
}

#[test]
fn trim_removes_unicode_white_space_at_both_ends() {
    assert_eq!(rust_builder::text::trim("\u{3000} Vec \t\u{2003}\n"), "Vec");
    assert_eq!(rust_builder::text::trim("a b"), "a b");
    assert_eq!(rust_builder::text::trim(" \u{85}\u{a0} "), "");
    assert!(rust_builder::text::space('\u{202f}'));
    assert!(!rust_builder::text::space('x'));
    assert!(!rust_builder::text::space('\u{200b}'));
    for c in ['\t', '\n', ' ', '\u{1680}', '\u{2028}', '\u{3000}', 'a', '\u{200b}', '_'] {
        assert_eq!(rust_builder::text::space(c), c.is_whitespace());
    }
}

#[test]
fn same_root_same_fingerprint() {
    assert_eq!(root_fingerprint("/docs/root"), root_fingerprint(&"/docs/root".to_string()));
    let a = index_for("/docs/root", vec![doc("a", "vector")]);
    let b = index_for("/docs/root", vec![doc("b", "hashmap")]);
    assert_eq!(a.fingerprint, b.fingerprint);
}
