//! The life of a search engine: it starts building, then holds either an index or the
//! reason why the build failed, and never changes again.
use vstd::prelude::*;
use vstd::string::StringExecFns;
use crate::document::IndexedDocument;
use crate::index::{SearchIndex, all_wf};
use crate::query::{Candidate, candidate_views, candidates_of};
use crate::tokenizer::terms_of;

verus! {

/// Title of the answer given while the index is being built.
pub const BUILDING_TITLE: &'static str = "Indexing in progress...";

/// Description of the answer given while the index is being built.
pub const BUILDING_DESCRIPTION: &'static str =
    "The documentation index is currently being built. Please try again in a few seconds.";

/// Title of the answer given when the build failed.
pub const FAILED_TITLE: &'static str = "Search Unavailable";

/// What precedes the failure message in the answer given when the build failed.
pub const FAILED_PREFIX: &'static str = "Indexing failed: ";

/// A record shown to the caller; its score is given beside it.
pub struct Hit {
    pub title: String,
    pub description: String,
    pub path: String,
}

/// The state of an engine.
pub enum SearchState {
    Initializing,
    Ready(SearchIndex),
    Error(String),
}

/// What a query gets from an engine.
pub enum Answer {
    /// The index is still being built: one informational record.
    Pending(Hit),
    /// The build failed: one record that carries the failure message.
    Unavailable(Hit),
    /// The documents with a positive score, in index order, with the summands of each score.
    Found(Vec<Candidate>),
}

/// The record given while the index is being built.
pub fn building_hit() -> (r: Hit)
    ensures
        r.title@ == BUILDING_TITLE@,
        r.description@ == BUILDING_DESCRIPTION@,
        r.path@ == Seq::<char>::empty(),
{
    Hit {
        title: BUILDING_TITLE.to_owned(),
        description: BUILDING_DESCRIPTION.to_owned(),
        path: String::new(),
    }
}

/// The record given when the build failed with `message`.
pub fn failed_hit(message: &str) -> (r: Hit)
    ensures
        r.title@ == FAILED_TITLE@,
        r.description@ == FAILED_PREFIX@ + message@,
        r.path@ == Seq::<char>::empty(),
{
    Hit {
        title: FAILED_TITLE.to_owned(),
        description: FAILED_PREFIX.to_owned().concat(message),
        path: String::new(),
    }
}

impl SearchState {
    /// Whether the state is one of the two final ones.
    pub open spec fn is_final(&self) -> bool {
        !(self is Initializing)
    }

    /// The state an engine starts in.
    pub fn new() -> (r: Self)
        ensures
            r is Initializing,
    {
        SearchState::Initializing
    }

    /// Installs the outcome of the build. Only the first call changes the state: a final
    /// state stays as it is.
    pub fn finish(&mut self, outcome: Result<SearchIndex, String>)
        ensures
            !old(self).is_final() ==> match outcome {
                Ok(index) => *final(self) == SearchState::Ready(index),
                Err(message) => *final(self) == SearchState::Error(message),
            },
            old(self).is_final() ==> *final(self) == *old(self),
            final(self).is_final(),
    {
        if let SearchState::Initializing = self {
            *self = match outcome {
                Ok(index) => SearchState::Ready(index),
                Err(message) => SearchState::Error(message),
            };
        }
    }

    /// Answers `query` from the current state.
    pub fn answer(&self, query: &str) -> (r: Answer)
        ensures
            self is Initializing ==> (r matches Answer::Pending(h) && h.title@ == BUILDING_TITLE@
                && h.description@ == BUILDING_DESCRIPTION@ && h.path@.len() == 0),
            self matches SearchState::Error(m) ==> (r matches Answer::Unavailable(h) && h.title@
                == FAILED_TITLE@ && h.description@ == FAILED_PREFIX@ + m@ && h.path@.len() == 0),
            self matches SearchState::Ready(index) ==> (r matches Answer::Found(cs)
                && candidate_views(cs@) == candidates_of(&index, terms_of(query@), index.n_docs())),
    {
        match self {
            SearchState::Initializing => Answer::Pending(building_hit()),
            SearchState::Error(message) => Answer::Unavailable(failed_hit(message.as_str())),
            SearchState::Ready(index) => Answer::Found(index.candidates(query)),
        }
    }
}

/// Adopts a cached index when it was built for the root with fingerprint `fingerprint`,
/// exactly as it was cached.
pub fn adopt_cached(cached: Option<SearchIndex>, fingerprint: u64) -> (r: Option<SearchIndex>)
    ensures
        (cached matches Some(index) && index.fingerprint == fingerprint) ==> r == cached,
        !(cached matches Some(index) && index.fingerprint == fingerprint) ==> r is None,
{
    match cached {
        Some(index) => {
            if index.fingerprint == fingerprint {
                Some(index)
            } else {
                None
            }
        },
        None => None,
    }
}

/// The hash that `DefaultHasher` gives the path `root`.
pub uninterp spec fn path_hash_of(root: Seq<char>) -> u64;

/// Relies on `std::hash::DefaultHasher::new` and `<Path as Hash>::hash` over
/// `Path::new(root)`: every hasher made by `new` is the same, so the hash depends on the
/// path alone. No particular value is claimed; the algorithm may differ between Rust
/// releases.
#[verifier::external_body]
fn hash_root(root: &str) -> (r: u64)
    ensures
        r == path_hash_of(root@),
{
    let mut hasher = std::collections::hash_map::DefaultHasher::new();
    std::hash::Hash::hash(std::path::Path::new(root), &mut hasher);
    std::hash::Hasher::finish(&hasher)
}

/// The fingerprint of a corpus root, which a cached index must carry to be used. The
/// same root always gives the same fingerprint.
pub fn root_fingerprint(root: &str) -> (r: u64)
    ensures
        r == path_hash_of(root@),
{
    hash_root(root)
}

/// One root path always has one fingerprint: two roots with the same text have the same.
pub proof fn lemma_fingerprint_of_path(p: Seq<char>, q: Seq<char>)
    requires
        p == q,
    ensures
        path_hash_of(p) == path_hash_of(q),
{
}

/// The index for `root` when the cache holds one built for it: then exactly the cached
/// one, and no document is extracted, tokenized or counted again. Otherwise none.
pub fn cached_index_for(root: &str, cached: Option<SearchIndex>) -> (r: Option<SearchIndex>)
    ensures
        (cached matches Some(c) && c.fingerprint == path_hash_of(root@)) ==> r == cached,
        !(cached matches Some(c) && c.fingerprint == path_hash_of(root@)) ==> r is None,
{
    adopt_cached(cached, root_fingerprint(root))
}

/// A freshly built index of `documents`, in discovery order, for `root`.
pub fn index_for(root: &str, documents: Vec<IndexedDocument>) -> (r: SearchIndex)
    requires
        all_wf(documents@),
    ensures
        r.wf(),
        r.documents@ == documents@,
        r.fingerprint == path_hash_of(root@),
{
    SearchIndex::build(root_fingerprint(root), documents)
}

} // verus!
