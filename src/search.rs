use vstd::prelude::*;

use crate::text::{
    all_white_space,    char_is_whitespace, contains_text, is_substring, is_white_space, lowercase, lower_of,
};

verus! {

/// `s[i..j]` is a maximal run of non-white-space characters of `s`.
pub open spec fn is_word_at(s: Seq<char>, i: int, j: int) -> bool {
    &&& 0 <= i < j <= s.len()
    &&& forall|k: int| i <= k < j ==> !is_white_space(#[trigger] s[k])
    &&& (i == 0 || is_white_space(s[i - 1]))
    &&& (j == s.len() || is_white_space(s[j]))
}

/// Some white-space delimited word of `query` occurs in `text`.
pub open spec fn some_word_occurs(text: Seq<char>, query: Seq<char>) -> bool {
    exists|i: int, j: int|
        #[trigger] is_word_at(query, i, j) && is_substring(query.subrange(i, j), text)
}

/// A summary is hit by a query when, both lower-cased, some word of the query
/// occurs in the summary.
pub open spec fn summary_hit(summary: Seq<char>, query: Seq<char>) -> bool {
    some_word_occurs(lower_of(summary), lower_of(query))
}

/// Whether some white-space delimited word of `query` occurs in `text`,
/// both taken as they are.
pub fn word_occurs(text: &str, query: &str) -> (r: bool)
    ensures
        r == some_word_occurs(text@, query@),
{
    let n = query.unicode_len();
    let mut start: usize = 0;
    let mut k: usize = 0;
    while k < n
        invariant
            n == query@.len(),
            start <= k <= n,
            forall|t: int| start <= t < k ==> !is_white_space(#[trigger] query@[t]),
            start == 0 || is_white_space(query@[start - 1]),
            forall|i: int, j: int|
                #[trigger] is_word_at(query@, i, j) && j < k ==> !is_substring(
                    query@.subrange(i, j),
                    text@,
                ),
        decreases n - k,
    {
        let c = query.get_char(k);
        if char_is_whitespace(c) {
            if start < k {
                let w = query.substring_char(start, k);
                if contains_text(text, w) {
                    assert(is_word_at(query@, start as int, k as int));
                    return true;
                }
            }
            assert forall|i: int, j: int|
                #[trigger] is_word_at(query@, i, j) && j < k + 1 implies !is_substring(
                    query@.subrange(i, j),
                    text@,
                ) by {
                if j == k {
                    if i < start {
                        assert(!is_white_space(query@[start - 1]));
                    } else if i > start {
                        assert(!is_white_space(query@[i - 1]));
                    }
                }
            }
            start = k + 1;
        } else {
            assert forall|i: int, j: int|
                #[trigger] is_word_at(query@, i, j) && j < k + 1 implies !is_substring(
                    query@.subrange(i, j),
                    text@,
                ) by {
                if j == k {
                    assert(is_white_space(query@[j]));
                }
            }
        }
        k = k + 1;
    }
    if start < n {
        let w = query.substring_char(start, n);
        if contains_text(text, w) {
            assert(is_word_at(query@, start as int, n as int));
            return true;
        }
    }
    assert forall|i: int, j: int| #[trigger] is_word_at(query@, i, j) implies !is_substring(
        query@.subrange(i, j),
        text@,
    ) by {
        if j == n {
            if i < start {
                assert(!is_white_space(query@[start - 1]));
            } else if i > start {
                assert(!is_white_space(query@[i - 1]));
            }
        }
    }
    false
}

/// A query with no words, empty or all white space, hits no text.
pub proof fn lemma_blank_query_hits_nothing(text: Seq<char>, query: Seq<char>)
    requires
        all_white_space(query),
    ensures
        !some_word_occurs(text, query),
{
    assert forall|i: int, j: int| !#[trigger] is_word_at(query, i, j) by {
        if 0 <= i < j <= query.len() {
            assert(is_white_space(query[i]));
        }
    }
}

/// Whether `summary` is hit by `query`, ignoring case.
pub fn summary_matches(summary: &str, query: &str) -> (r: bool)
    ensures
        r == summary_hit(summary@, query@),
        all_white_space(query@) ==> !r,
{
    let s = lowercase(summary);
    let q = lowercase(query);
    proof {
        if all_white_space(query@) {
            lemma_blank_query_hits_nothing(lower_of(summary@), lower_of(query@));
        }
    }
    word_occurs(s.as_str(), q.as_str())
}

} // verus!
