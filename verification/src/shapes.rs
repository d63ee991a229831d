//! What the things found in CSS text look like: a comment, an `@import`
//! statement, a `url(..)`.

use vstd::prelude::*;
use crate::scan::{
    closes, comment_end, import_at, is_quote, pair_index, reference_at, reference_end, url_at,
};
use crate::text::{
    index_of, is_space, leading_spaces, lemma_index_of, occurs_at, trailing_spaces,
};

verus! {

/// Whether every character of `s` from `from` up to `to` is white space.
pub open spec fn spaces(s: Seq<char>, from: int, to: int) -> bool {
    forall|k: int| from <= k < to ==> is_space(#[trigger] s[k])
}

/// Whether `c` stands nowhere in `s` from `from` up to `to`.
pub open spec fn free_of(s: Seq<char>, c: char, from: int, to: int) -> bool {
    forall|k: int| from <= k < to ==> #[trigger] s[k] != c
}

/// Where `pair_index` points: to the first `a` at or after `from` that has
/// `b` right behind it.
proof fn lemma_pair_index(s: Seq<char>, a: char, b: char, from: int)
    requires
        0 <= from,
    ensures
        pair_index(s, a, b, from) < s.len() ==> from <= pair_index(s, a, b, from) && pair_index(
            s,
            a,
            b,
            from,
        ) + 1 < s.len() && s[pair_index(s, a, b, from)] == a && s[pair_index(s, a, b, from) + 1]
            == b,
        forall|k: int|
            from <= k < pair_index(s, a, b, from) && k + 1 < s.len() ==> !(#[trigger] s[k] == a
                && s[k + 1] == b),
    decreases s.len() - from,
{
    if from + 1 < s.len() && !(s[from] == a && s[from + 1] == b) {
        lemma_pair_index(s, a, b, from + 1);
    }
}

/// The white space at the front of `s` is white space, and what follows it
/// is none.
proof fn lemma_leading_spaces(s: Seq<char>)
    ensures
        0 <= leading_spaces(s) <= s.len(),
        spaces(s, 0, leading_spaces(s)),
        leading_spaces(s) < s.len() ==> !is_space(s[leading_spaces(s)]),
    decreases s.len(),
{
    if s.len() > 0 && is_space(s[0]) {
        let t = s.skip(1);
        lemma_leading_spaces(t);
        assert forall|k: int| 0 <= k < leading_spaces(s) implies is_space(#[trigger] s[k]) by {
            if k > 0 {
                assert(s[k] == t[k - 1]);
            }
        }
        if leading_spaces(s) < s.len() {
            assert(s[leading_spaces(s)] == t[leading_spaces(t)]);
        }
    }
}

/// The white space at the back of `s` is white space.
proof fn lemma_trailing_spaces(s: Seq<char>)
    ensures
        0 <= trailing_spaces(s) <= s.len(),
        spaces(s, s.len() - trailing_spaces(s), s.len() as int),
    decreases s.len(),
{
    if s.len() > 0 && is_space(s.last()) {
        let t = s.drop_last();
        lemma_trailing_spaces(t);
        assert forall|k: int| s.len() - trailing_spaces(s) <= k < s.len() implies is_space(
            #[trigger] s[k],
        ) by {
            if k < s.len() - 1 {
                assert(s[k] == t[k]);
            }
        }
    }
}

/// A comment begins with `/*` and ends with the first `*/` behind that.
pub proof fn comment_shape(s: Seq<char>, i: int)
    requires
        comment_end(s, i) is Some,
    ensures
        0 <= i,
        i + 4 <= comment_end(s, i)->0 <= s.len(),
        s[i] == '/' && s[i + 1] == '*',
        s[comment_end(s, i)->0 - 2] == '*' && s[comment_end(s, i)->0 - 1] == '/',
        forall|k: int|
            i + 2 <= k < comment_end(s, i)->0 - 2 ==> !(#[trigger] s[k] == '*' && s[k + 1] == '/'),
{
    lemma_pair_index(s, '*', '/', i + 2);
}

/// An `@import` statement begins with `@import` and ends with the first `;`
/// behind the white space that follows `@import`; no line ends between the
/// two.
pub proof fn import_shape(s: Seq<char>, i: int)
    requires
        import_at(s, i) is Some,
    ensures
        occurs_at(s, i, "@import"@),
        i + "@import"@.len() <= import_at(s, i)->0 < s.len(),
        s[import_at(s, i)->0] == ';',
        spaces(
            s,
            i + "@import"@.len(),
            i + "@import"@.len() + leading_spaces(s.skip(i + "@import"@.len())),
        ),
        free_of(
            s,
            ';',
            i + "@import"@.len() + leading_spaces(s.skip(i + "@import"@.len())),
            import_at(s, i)->0,
        ),
        free_of(
            s,
            '\n',
            i + "@import"@.len() + leading_spaces(s.skip(i + "@import"@.len())),
            import_at(s, i)->0,
        ),
{
    let from = i + "@import"@.len();
    let rest = s.skip(from);
    lemma_leading_spaces(rest);
    let word = from + leading_spaces(rest);
    lemma_index_of(s, ';', word);
    lemma_index_of(s, '\n', word);
    assert forall|k: int| from <= k < word implies is_space(#[trigger] s[k]) by {
        assert(s[k] == rest[k - from]);
    }
}

proof fn lemma_reference_end(s: Seq<char>, from: int, to: int, tail: int, close: int)
    requires
        reference_end(s, from, to, tail, close) is Some,
        forall|k: int| from <= k < to - 1 ==> !is_quote(#[trigger] s[k]),
    ensures
        to <= reference_end(s, from, to, tail, close)->0 <= close,
        from < reference_end(s, from, to, tail, close)->0,
        forall|k: int|
            from <= k < reference_end(s, from, to, tail, close)->0 ==> !is_quote(#[trigger] s[k]),
        closes(s, reference_end(s, from, to, tail, close)->0, tail, close),
    decreases close + 1 - to,
{
    if !closes(s, to, tail, close) {
        lemma_reference_end(s, from, to + 1, tail, close);
    }
}

proof fn lemma_reference_at(s: Seq<char>, first: int, at: int, tail: int, close: int)
    requires
        reference_at(s, at, tail, close) is Some,
        first <= at,
        spaces(s, first, at),
    ensures
        at <= reference_at(s, at, tail, close)->0.from < reference_at(s, at, tail, close)->0.to
            <= close,
        forall|k: int|
            reference_at(s, at, tail, close)->0.from <= k < reference_at(
                s,
                at,
                tail,
                close,
            )->0.to ==> !is_quote(#[trigger] s[k]),
        closes(s, reference_at(s, at, tail, close)->0.to, tail, close),
        spaces(s, first, reference_at(s, at, tail, close)->0.from - 1),
        first < reference_at(s, at, tail, close)->0.from ==> is_space(
            s[reference_at(s, at, tail, close)->0.from - 1],
        ) || is_quote(s[reference_at(s, at, tail, close)->0.from - 1]),
    decreases close - at,
{
    let from = if at < close && is_quote(s[at]) {
        at + 1
    } else {
        at
    };
    if reference_end(s, from, from + 1, tail, close) is Some {
        lemma_reference_end(s, from, from + 1, tail, close);
    } else {
        lemma_reference_at(s, first, at + 1, tail, close);
    }
}

/// A `url(..)` is `url`, white space if any, `(`, and then up to the first
/// `)`: white space if any, a quote or none, the reference, a quote or
/// none, white space if any. The reference is not empty and holds no quote.
pub proof fn url_shape(s: Seq<char>, i: int)
    requires
        url_at(s, i) is Some,
    ensures
        occurs_at(s, i, "url"@),
        spaces(s, i + "url"@.len(), opening(s, i)),
        opening(s, i) < s.len() && s[opening(s, i)] == '(',
        url_at(s, i)->0.end <= s.len() && s[url_at(s, i)->0.end - 1] == ')',
        free_of(s, ')', opening(s, i) + 1, url_at(s, i)->0.end - 1),
        opening(s, i) < url_at(s, i)->0.from < url_at(s, i)->0.to < url_at(s, i)->0.end,
        forall|k: int|
            url_at(s, i)->0.from <= k < url_at(s, i)->0.to ==> !is_quote(#[trigger] s[k]),
        spaces(s, opening(s, i) + 1, url_at(s, i)->0.from - 1),
        opening(s, i) + 1 < url_at(s, i)->0.from ==> is_space(s[url_at(s, i)->0.from - 1])
            || is_quote(s[url_at(s, i)->0.from - 1]),
        spaces(s, url_at(s, i)->0.to + 1, url_at(s, i)->0.end - 1),
        url_at(s, i)->0.to + 1 < url_at(s, i)->0.end ==> is_space(s[url_at(s, i)->0.to])
            || is_quote(s[url_at(s, i)->0.to]),
{
    let from = i + "url"@.len();
    let rest = s.skip(from);
    lemma_leading_spaces(rest);
    let open = opening(s, i);
    assert forall|k: int| from <= k < open implies is_space(#[trigger] s[k]) by {
        assert(s[k] == rest[k - from]);
    }
    let close = index_of(s, ')', open + 1);
    lemma_index_of(s, ')', open + 1);
    let inner = s.subrange(open + 1, close);
    lemma_trailing_spaces(inner);
    let tail = close - trailing_spaces(inner);
    assert forall|k: int| tail <= k < close implies is_space(#[trigger] s[k]) by {
        assert(s[k] == inner[k - (open + 1)]);
    }
    lemma_reference_at(s, open + 1, open + 1, tail, close);
}

/// Where the `(` of the `url(..)` that begins at index `i` of `s` stands.
pub open spec fn opening(s: Seq<char>, i: int) -> int {
    i + "url"@.len() + leading_spaces(s.skip(i + "url"@.len()))
}

} // verus!
