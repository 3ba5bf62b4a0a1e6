//! Turning one HTML documentation page into an indexed document.
//!
//! The indexable text of a page is its title and its description, not the full body:
//! this keeps the index small and favours precision over recall.
use vstd::prelude::*;
use vstd::string::StringExecFns;
use crate::document::{IndexedDocument, occurrences};
use crate::text::{chars_of, string_of, trim, trim_of};
use crate::tokenizer::{terms_of, tokenize};

verus! {

/// The elements whose text is a page's title.
pub const TITLE_SELECTOR: &'static str = "h1.fqn, h1.main-heading";

/// The elements whose text is a page's description.
pub const DESCRIPTION_SELECTOR: &'static str = ".docblock p";

/// The most characters of a description that are kept.
pub const DESCRIPTION_LIMIT: usize = 200;

/// What scraper finds in `html` for `selector`: the text of the first matching element,
/// or none.
pub uninterp spec fn first_text_of(html: Seq<char>, selector: Seq<char>) -> Option<Seq<char>>;

/// Relies on scraper's `Html::parse_document`, `Selector::parse`, `Html::select` and
/// `ElementRef::text`: the text nodes under the first element of the document that the
/// selector group matches, joined; none when the selector does not parse or nothing
/// matches. It depends on the two strings alone.
#[verifier::external_body]
fn first_match_text(html: &str, selector: &str) -> (r: Option<String>)
    ensures
        r matches Some(s) ==> first_text_of(html@, selector@) == Some(s@),
        r is None ==> first_text_of(html@, selector@) is None,
{
    let sel = scraper::Selector::parse(selector).ok()?;
    let doc = scraper::Html::parse_document(html);
    let first = doc.select(&sel).next();
    first.map(|el| el.text().collect::<String>())
}

/// A text cut to `DESCRIPTION_LIMIT` characters, marked with "..." when it was longer.
pub open spec fn shorten(s: Seq<char>) -> Seq<char> {
    if s.len() > DESCRIPTION_LIMIT {
        s.subrange(0, DESCRIPTION_LIMIT as int) + "..."@
    } else {
        s
    }
}

/// The title of a page: the trimmed text of its first title element, else the file stem.
pub open spec fn title_of(html: Seq<char>, stem: Seq<char>) -> Seq<char> {
    match first_text_of(html, TITLE_SELECTOR@) {
        Some(t) => trim_of(t),
        None => stem,
    }
}

/// The description of a page: the trimmed, shortened text of its first description
/// element, else empty.
pub open spec fn description_of(html: Seq<char>) -> Seq<char> {
    match first_text_of(html, DESCRIPTION_SELECTOR@) {
        Some(t) => shorten(trim_of(t)),
        None => Seq::empty(),
    }
}

/// The text of a page that is indexed: title, a space, description.
pub open spec fn indexable_of(html: Seq<char>, stem: Seq<char>) -> Seq<char> {
    title_of(html, stem) + " "@ + description_of(html)
}

/// Cuts `s` to `DESCRIPTION_LIMIT` characters, adding "..." when it was longer.
pub fn shorten_text(s: &str) -> (r: String)
    ensures
        r@ == shorten(s@),
{
    let cs = chars_of(s);
    if cs.len() > DESCRIPTION_LIMIT {
        let mut head = cs.clone();
        head.truncate(DESCRIPTION_LIMIT);
        assert(head@ =~= s@.subrange(0, DESCRIPTION_LIMIT as int));
        let h = string_of(head.as_slice());
        h.concat("...")
    } else {
        string_of(cs.as_slice())
    }
}

/// Builds the indexed document of one page from its HTML, the stem of its file name and
/// its path relative to the corpus root; none when its indexable text yields no term.
pub fn extract_document(html: &str, stem: &str, path: String) -> (r: Option<IndexedDocument>)
    ensures
        r is None <==> terms_of(indexable_of(html@, stem@)).len() == 0,
        r matches Some(d) ==> {
            &&& d.wf()
            &&& d.path@ == path@
            &&& d.title@ == title_of(html@, stem@)
            &&& d.description@ == description_of(html@)
            &&& d.total == terms_of(indexable_of(html@, stem@)).len()
            &&& forall|t: Seq<char>|
                #[trigger] d.count_of(t) == occurrences(terms_of(indexable_of(html@, stem@)), t)
        },
{
    let title = match first_match_text(html, TITLE_SELECTOR) {
        Some(t) => trim(t.as_str()),
        None => stem.to_owned(),
    };
    let description = match first_match_text(html, DESCRIPTION_SELECTOR) {
        Some(t) => {
            let trimmed = trim(t.as_str());
            shorten_text(trimmed.as_str())
        },
        None => String::new(),
    };
    let text = title.clone().concat(" ").concat(description.as_str());
    let terms = tokenize(text.as_str());
    IndexedDocument::from_terms(path, title, description, terms)
}

} // verus!
