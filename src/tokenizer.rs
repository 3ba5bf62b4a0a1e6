//! Turning free text into index terms.
use vstd::prelude::*;
use crate::text::{alnum, char_width, chars_of, is_alnum, lower_of, string_of, to_lower, utf8_len, views};

verus! {

/// A word is kept as a term when it takes more than two bytes.
pub open spec fn keeps(w: Seq<char>) -> bool {
    utf8_len(w) > 2
}

/// Ends the word under construction: it joins the terms if it is kept.
pub open spec fn close_word(acc: Seq<Seq<char>>, cur: Seq<char>) -> Seq<Seq<char>> {
    if keeps(cur) {
        acc.push(cur)
    } else {
        acc
    }
}

/// Left-to-right scan of `s`: `cur` is the word being read, `acc` the terms found before it.
/// Every character that is not alphanumeric ends a word.
pub open spec fn scan(s: Seq<char>, cur: Seq<char>, acc: Seq<Seq<char>>) -> Seq<Seq<char>>
    decreases s.len(),
{
    if s.len() == 0 {
        close_word(acc, cur)
    } else if is_alnum(s[0]) {
        scan(s.drop_first(), cur.push(s[0]), acc)
    } else {
        scan(s.drop_first(), Seq::empty(), close_word(acc, cur))
    }
}

/// The terms of a text: lower-cased, split at every non-alphanumeric character,
/// words of at most two bytes dropped; order and duplicates kept.
pub open spec fn terms_of(text: Seq<char>) -> Seq<Seq<char>> {
    scan(lower_of(text), Seq::empty(), Seq::empty())
}

/// A term: alphanumeric characters only, more than two bytes.
pub open spec fn is_term(w: Seq<char>) -> bool {
    keeps(w) && forall|j: int| 0 <= j < w.len() ==> is_alnum(#[trigger] w[j])
}

proof fn lemma_scan_terms(s: Seq<char>, cur: Seq<char>, acc: Seq<Seq<char>>)
    requires
        forall|i: int| 0 <= i < acc.len() ==> is_term(#[trigger] acc[i]),
        forall|j: int| 0 <= j < cur.len() ==> is_alnum(#[trigger] cur[j]),
    ensures
        forall|i: int|
            0 <= i < scan(s, cur, acc).len() ==> is_term(#[trigger] scan(s, cur, acc)[i]),
    decreases s.len(),
{
    let closed = close_word(acc, cur);
    assert forall|i: int| 0 <= i < closed.len() implies is_term(#[trigger] closed[i]) by {
        if i < acc.len() {
            assert(closed[i] == acc[i]);
        } else {
            assert(keeps(cur) && closed[i] == cur);
        }
    }
    if s.len() == 0 {
        assert(scan(s, cur, acc) == closed);
    } else {
        if is_alnum(s[0]) {
            let next = cur.push(s[0]);
            assert forall|j: int| 0 <= j < next.len() implies is_alnum(#[trigger] next[j]) by {
                if j < cur.len() {
                    assert(next[j] == cur[j]);
                }
            }
            lemma_scan_terms(s.drop_first(), next, acc);
            assert(scan(s, cur, acc) == scan(s.drop_first(), next, acc));
        } else {
            lemma_scan_terms(s.drop_first(), Seq::empty(), closed);
            assert(scan(s, cur, acc) == scan(s.drop_first(), Seq::<char>::empty(), closed));
        }
    }
}

/// Every term of a text consists of alphanumeric characters and takes more than two bytes.
pub proof fn lemma_terms_are_words(text: Seq<char>)
    ensures
        forall|i: int| 0 <= i < terms_of(text).len() ==> is_term(#[trigger] terms_of(text)[i]),
{
    lemma_scan_terms(lower_of(text), Seq::empty(), Seq::empty());
}

/// The width of `w` in bytes, counted up to 3.
pub open spec fn capped_len(w: Seq<char>) -> nat {
    if utf8_len(w) > 3 {
        3
    } else {
        utf8_len(w)
    }
}

/// Splits `text` into terms. The same function serves documents and queries.
pub fn tokenize(text: &str) -> (r: Vec<String>)
    ensures
        views(r@) == terms_of(text@),
{
    let lower = to_lower(text);
    split_terms(lower.as_str())
}

/// Splits already lower-cased text into terms: the words between non-alphanumeric
/// characters that take more than two bytes.
pub fn split_terms(lowered: &str) -> (r: Vec<String>)
    ensures
        views(r@) == scan(lowered@, Seq::empty(), Seq::empty()),
{
    let cs = chars_of(lowered);
    let mut out: Vec<String> = Vec::new();
    let mut cur: Vec<char> = Vec::new();
    let mut cur_bytes: usize = 0;
    let mut i: usize = 0;
    assert(cs@.subrange(0, cs.len() as int) =~= cs@);
    assert(views(out@) =~= Seq::<Seq<char>>::empty());
    assert(cur@ =~= Seq::<char>::empty());
    while i < cs.len()
        invariant
            i <= cs.len(),
            cs@ == lowered@,
            scan(cs@.subrange(i as int, cs.len() as int), cur@, views(out@)) == scan(
                lowered@,
                Seq::empty(),
                Seq::empty(),
            ),
            cur_bytes == capped_len(cur@),
        decreases cs.len() - i,
    {
        let c = cs[i];
        let ghost rest = cs@.subrange(i as int, cs.len() as int);
        assert(rest.drop_first() =~= cs@.subrange(i + 1, cs.len() as int));
        assert(rest[0] == c);
        if alnum(c) {
            let ghost old_cur = cur@;
            cur.push(c);
            assert(cur@.drop_last() =~= old_cur);
            let w = char_width(c);
            cur_bytes = if cur_bytes + w > 3 {
                3
            } else {
                cur_bytes + w
            };
        } else {
            if cur_bytes > 2 {
                let word = string_of(cur.as_slice());
                let ghost old_out = out@;
                out.push(word);
                assert(views(out@) =~= views(old_out).push(cur@));
            }
            cur = Vec::new();
            cur_bytes = 0;
        }
        i = i + 1;
    }
    assert(cs@.subrange(i as int, cs.len() as int) =~= Seq::<char>::empty());
    if cur_bytes > 2 {
        let word = string_of(cur.as_slice());
        let ghost old_out = out@;
        out.push(word);
        assert(views(out@) =~= views(old_out).push(cur@));
    }
    out
}

} // verus!
