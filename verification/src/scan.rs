//! The three things that the library finds in CSS text: comments, `@import`
//! statements and `url(..)` references.
//!
//! Each is looked for from the left; where one is found the search goes on
//! behind it.

use vstd::prelude::*;
use crate::address::texts;
use crate::text::{
    begins_with, chars_of, find_char, has_at, index_of, is_space, is_space_char, leading_spaces,
    copy_of, occurs_at, skip_spaces, skip_spaces_back, slice_of, trailing_spaces, trim,
    trimmed,
};

verus! {

/// The index of the first `a` in `s` at or after `from` that has `b` right
/// behind it, or the length of `s` where there is none.
pub open spec fn pair_index(s: Seq<char>, a: char, b: char, from: int) -> int
    decreases s.len() - from,
{
    if from < 0 || from + 1 >= s.len() {
        s.len() as int
    } else if s[from] == a && s[from + 1] == b {
        from
    } else {
        pair_index(s, a, b, from + 1)
    }
}

/// Where the comment that begins at index `i` of `s` ends: `s` has `/*` at
/// `i`, and the result is the index behind the first `*/` after that.
pub open spec fn comment_end(s: Seq<char>, i: int) -> Option<int> {
    if 0 <= i && i + 1 < s.len() && s[i] == '/' && s[i + 1] == '*' && pair_index(
        s,
        '*',
        '/',
        i + 2,
    ) < s.len() {
        Some(pair_index(s, '*', '/', i + 2) + 2)
    } else {
        None
    }
}

/// `s` from index `i` on without its comments.
pub open spec fn uncommented_from(s: Seq<char>, i: int) -> Seq<char>
    decreases s.len() - i,
{
    if i < 0 || i >= s.len() {
        Seq::empty()
    } else {
        match comment_end(s, i) {
            Some(end) if i < end <= s.len() => uncommented_from(s, end),
            _ => seq![s[i]] + uncommented_from(s, i + 1),
        }
    }
}

/// `s` without its comments. An opened comment that is never closed stays.
pub open spec fn uncommented(s: Seq<char>) -> Seq<char> {
    uncommented_from(s, 0)
}

/// Where the `@import` statement that begins at index `i` of `s` has its
/// `;`: `s` has `@import` at `i`, and after the white space that follows,
/// a `;` comes before the line ends.
pub open spec fn import_at(s: Seq<char>, i: int) -> Option<int> {
    if occurs_at(s, i, "@import"@) {
        let from = i + "@import"@.len();
        let word = from + leading_spaces(s.skip(from));
        let semicolon = index_of(s, ';', word);
        if semicolon < s.len() && semicolon < index_of(s, '\n', word) {
            Some(semicolon)
        } else {
            None
        }
    } else {
        None
    }
}

/// The index of the first white space in `s` at or after `from`, or the
/// length of `s` where there is none.
pub open spec fn space_index(s: Seq<char>, from: int) -> int
    decreases s.len() - from,
{
    if from < 0 || from >= s.len() {
        s.len() as int
    } else if is_space(s[from]) {
        from
    } else {
        space_index(s, from + 1)
    }
}

/// `s` from index `from` on; nothing where `s` ends before that.
pub open spec fn tail_of(s: Seq<char>, from: int) -> Seq<char> {
    if 0 <= from < s.len() {
        s.skip(from)
    } else {
        Seq::empty()
    }
}

/// `s` without the two quotes around it, where it stands between two quotes
/// of one kind; else `s`.
pub open spec fn unquoted(s: Seq<char>) -> Seq<char> {
    if s.len() >= 2 && is_quote(s[0]) && s.last() == s[0] {
        s.subrange(1, s.len() - 1)
    } else {
        s
    }
}

/// The two parts of what an `@import` statement says between `@import` and
/// `;`.
pub struct ImportParts {
    /// The reference, as written.
    pub reference: Seq<char>,
    /// All that follows the reference.
    pub rest: Seq<char>,
}

/// The parts of an `@import` statement. Behind the white space at the front
/// comes the reference:
///
/// - after `url(`, all up to the first `)`, without the white space around
///   it and without the quotes around it;
/// - after a quote, all up to the next quote of that kind;
/// - else all up to the first white space.
///
/// Where the `)` or the second quote is missing, the reference goes on to
/// the end.
pub open spec fn import_parts(body: Seq<char>) -> ImportParts {
    let said = body.skip(leading_spaces(body));
    if begins_with(said, "url("@) {
        let close = index_of(said, ')', "url("@.len() as int);
        ImportParts {
            reference: unquoted(trimmed(said.subrange("url("@.len() as int, close))),
            rest: tail_of(said, close + 1),
        }
    } else if said.len() > 0 && is_quote(said[0]) {
        let close = index_of(said, said[0], 1);
        ImportParts { reference: said.subrange(1, close), rest: tail_of(said, close + 1) }
    } else {
        let end = space_index(said, 0);
        ImportParts { reference: said.take(end), rest: tail_of(said, end) }
    }
}

/// The reference of an `@import` statement: the path that it names, as it
/// is written inside `url(..)` or inside the quotes.
pub open spec fn import_reference(body: Seq<char>) -> Seq<char> {
    import_parts(body).reference
}

/// The media condition of an `@import` statement: what follows the
/// reference, as it is written, without the white space around it; `None`
/// where nothing follows.
pub open spec fn import_condition(body: Seq<char>) -> Option<Seq<char>> {
    if trimmed(import_parts(body).rest).len() > 0 {
        Some(trimmed(import_parts(body).rest))
    } else {
        None
    }
}

/// An imported sheet as it is put in the place of the statement: under
/// `@media` where the statement has a condition.
pub open spec fn wrapped(media: Option<Seq<char>>, css: Seq<char>) -> Seq<char> {
    match media {
        Some(condition) => "@media "@ + condition + "{"@ + css + "}"@,
        None => css,
    }
}

/// Whether `c` is a quote, single or double.
pub open spec fn is_quote(c: char) -> bool {
    c == '"' || c == '\''
}

/// A stretch of a text.
pub struct Span {
    /// Where it begins.
    pub from: int,
    /// The index behind it.
    pub to: int,
}

/// A `url(..)` found in a text.
pub struct UrlAt {
    /// The index behind its `)`.
    pub end: int,
    /// Where the reference in it begins.
    pub from: int,
    /// The index behind the reference.
    pub to: int,
}

/// Whether all that lies between index `at` and the `)` is a quote at most
/// and then white space. `tail` is where the white space before the `)`
/// begins.
pub open spec fn closes(s: Seq<char>, at: int, tail: int, close: int) -> bool {
    at >= tail || (at < close && is_quote(s[at]) && at + 1 >= tail)
}

/// Where the reference that begins at `from` ends: behind the first of its
/// characters, none of them a quote, after which the `url(..)` closes. `to`
/// is the first end to try.
pub open spec fn reference_end(s: Seq<char>, from: int, to: int, tail: int, close: int) -> Option<
    int,
>
    decreases close + 1 - to,
{
    if to > close || to <= from || to < 1 {
        None
    } else if is_quote(s[to - 1]) {
        None
    } else if closes(s, to, tail, close) {
        Some(to)
    } else {
        reference_end(s, from, to + 1, tail, close)
    }
}

/// The reference between the brackets of a `url(..)`: it begins at `at`, or
/// behind the quote at `at`, or where it has no end there, as far behind the
/// white space at `at` as it must for it to have one.
pub open spec fn reference_at(s: Seq<char>, at: int, tail: int, close: int) -> Option<Span>
    decreases close - at,
{
    if at < 0 || at > close {
        None
    } else {
        let from = if at < close && is_quote(s[at]) {
            at + 1
        } else {
            at
        };
        match reference_end(s, from, from + 1, tail, close) {
            Some(to) => Some(Span { from, to }),
            None => if at < close && is_space(s[at]) {
                reference_at(s, at + 1, tail, close)
            } else {
                None
            },
        }
    }
}

/// The `url(..)` that begins at index `i` of `s`: `url`, white space if any,
/// `(`, and before the first `)` a reference that white space and one quote
/// on either side may surround. The reference is not empty and holds no
/// quote.
pub open spec fn url_at(s: Seq<char>, i: int) -> Option<UrlAt> {
    if occurs_at(s, i, "url"@) {
        let open = i + "url"@.len() + leading_spaces(s.skip(i + "url"@.len()));
        let close = index_of(s, ')', open + 1);
        if open < s.len() && s[open] == '(' && close < s.len() {
            let tail = close - trailing_spaces(s.subrange(open + 1, close));
            match reference_at(s, open + 1, tail, close) {
                Some(span) => Some(UrlAt { end: close + 1, from: span.from, to: span.to }),
                None => None,
            }
        } else {
            None
        }
    } else {
        None
    }
}

/// The `url(..)` that a finder names by the index behind it and by where its
/// reference begins and ends.
pub open spec fn url_found(found: (usize, usize, usize)) -> UrlAt {
    UrlAt { end: found.0 as int, from: found.1 as int, to: found.2 as int }
}

/// Whether what a finder names is a `url(..)` that begins at `i` in a text
/// of the given length and has its reference inside it.
pub open spec fn lies_in(found: (usize, usize, usize), i: int, len: int) -> bool {
    i < found.1 < found.2 < found.0 <= len
}

/// A reference as it is written back: `url('..')`.
pub open spec fn quoted(value: Seq<char>) -> Seq<char> {
    "url('"@ + value + "')"@
}

/// The index of the first `a` at or after `from` with `b` right behind it,
/// or the length of `s`.
pub fn find_pair(s: &Vec<char>, a: char, b: char, from: usize) -> (at: usize)
    ensures
        at == pair_index(s@, a, b, from as int),
        at == s.len() || (from <= at && at + 1 < s.len()),
{
    let mut i: usize = from;
    while i < s.len() && i + 1 < s.len() && !(s[i] == a && s[i + 1] == b)
        invariant
            from <= i,
            pair_index(s@, a, b, from as int) == pair_index(s@, a, b, i as int),
        decreases s.len() - i,
    {
        i += 1;
    }
    if i < s.len() && i + 1 < s.len() {
        i
    } else {
        s.len()
    }
}

/// `s` without its comments.
pub fn strip_comments(s: &Vec<char>) -> (out: Vec<char>)
    ensures
        out@ == uncommented(s@),
{
    let mut out: Vec<char> = Vec::new();
    let mut i: usize = 0;
    while i < s.len()
        invariant
            i <= s.len(),
            out@ + uncommented_from(s@, i as int) == uncommented(s@),
        decreases s.len() - i,
    {
        let mut end: usize = i;
        if s[i] == '/' && i + 1 < s.len() && s[i + 1] == '*' {
            let close = find_pair(s, '*', '/', i + 2);
            if close < s.len() {
                end = close + 2;
            }
        }
        if end > i {
            i = end;
        } else {
            proof {
                let rest = uncommented_from(s@, i + 1);
                assert(out@.push(s@[i as int]) + rest == out@ + (seq![s@[i as int]] + rest));
            }
            out.push(s[i]);
            i += 1;
        }
    }
    assert(out@ + Seq::<char>::empty() == out@);
    out
}

/// The index of the `;` of the `@import` statement that begins at index `i`,
/// if one begins there.
pub fn find_import(s: &Vec<char>, i: usize) -> (semicolon: Option<usize>)
    ensures
        semicolon is Some == import_at(s@, i as int) is Some,
        semicolon is Some ==> semicolon->0 == import_at(s@, i as int)->0 && i + "@import"@.len()
            <= semicolon->0 < s.len(),
{
    import_from(s, i, &chars_of("@import"))
}

/// The index of the `;` of the `@import` statement that begins at index `i`,
/// if one begins there. `keyword` is `@import`.
pub(crate) fn import_from(s: &Vec<char>, i: usize, keyword: &Vec<char>) -> (semicolon: Option<
    usize,
>)
    requires
        keyword@ == "@import"@,
    ensures
        semicolon is Some == import_at(s@, i as int) is Some,
        semicolon is Some ==> semicolon->0 == import_at(s@, i as int)->0 && i + keyword.len()
            <= semicolon->0 < s.len(),
{
    if !has_at(s, i, keyword) {
        return None;
    }
    let word = skip_spaces(s, i + keyword.len());
    let semicolon = find_char(s, ';', word);
    let feed = find_char(s, '\n', word);
    if semicolon < s.len() && semicolon < feed {
        Some(semicolon)
    } else {
        None
    }
}

/// The index of the first white space in `s` at or after `from`, or the
/// length of `s`.
fn find_space(s: &Vec<char>, from: usize) -> (at: usize)
    requires
        from <= s.len(),
    ensures
        at == space_index(s@, from as int),
        from <= at <= s.len(),
{
    let mut i: usize = from;
    while i < s.len() && !is_space_char(s[i])
        invariant
            from <= i <= s.len(),
            space_index(s@, from as int) == space_index(s@, i as int),
        decreases s.len() - i,
    {
        i += 1;
    }
    i
}

/// `s` from the index behind `at` on.
fn rest_behind(s: &Vec<char>, at: usize) -> (rest: Vec<char>)
    ensures
        rest@ == tail_of(s@, at + 1),
{
    if at < s.len() && at + 1 < s.len() {
        let rest = slice_of(s, at + 1, s.len());
        assert(s@.subrange(at + 1, s.len() as int) == s@.skip(at + 1));
        rest
    } else {
        Vec::new()
    }
}

/// `s` from index `from` on.
fn rest_from(s: &Vec<char>, from: usize) -> (rest: Vec<char>)
    ensures
        rest@ == tail_of(s@, from as int),
{
    if from < s.len() {
        let rest = slice_of(s, from, s.len());
        assert(s@.subrange(from as int, s.len() as int) == s@.skip(from as int));
        rest
    } else {
        Vec::new()
    }
}

/// `s` without the two quotes around it, where it has them.
fn unquote(s: &Vec<char>) -> (bare: Vec<char>)
    ensures
        bare@ == unquoted(s@),
{
    if s.len() >= 2 && (s[0] == '"' || s[0] == '\'') && s[s.len() - 1] == s[0] {
        slice_of(s, 1, s.len() - 1)
    } else {
        copy_of(s)
    }
}

/// The reference and the media condition of an `@import` statement that
/// says `body` between `@import` and `;`.
pub fn read_import(body: &Vec<char>) -> (parts: (Vec<char>, Option<Vec<char>>))
    ensures
        parts.0@ == import_reference(body@),
        texts(parts.1) == import_condition(body@),
{
    let front = skip_spaces(body, 0);
    assert(body@.skip(0) == body@);
    let said = slice_of(body, front, body.len());
    assert(body@.subrange(front as int, body.len() as int) == body@.skip(front as int));
    let keyword = chars_of("url(");
    let (reference, rest) = if has_at(&said, 0, &keyword) {
        let close = find_char(&said, ')', keyword.len());
        (unquote(&trim(&slice_of(&said, keyword.len(), close))), rest_behind(&said, close))
    } else if said.len() > 0 && (said[0] == '"' || said[0] == '\'') {
        let close = find_char(&said, said[0], 1);
        (slice_of(&said, 1, close), rest_behind(&said, close))
    } else {
        let end = find_space(&said, 0);
        let reference = slice_of(&said, 0, end);
        assert(said@.subrange(0, end as int) == said@.take(end as int));
        (reference, rest_from(&said, end))
    };
    let condition = trim(&rest);
    if condition.len() > 0 {
        (reference, Some(condition))
    } else {
        (reference, None)
    }
}

/// Where the reference that begins at `from` ends, if it has an end.
fn find_reference_end(s: &Vec<char>, from: usize, tail: usize, close: usize) -> (end: Option<usize>)
    requires
        from <= close < s.len(),
        tail <= close,
    ensures
        end is Some == reference_end(s@, from as int, from + 1, tail as int, close as int) is Some,
        end is Some ==> end->0 == reference_end(
            s@,
            from as int,
            from + 1,
            tail as int,
            close as int,
        )->0 && from < end->0 <= close,
{
    let mut to: usize = from + 1;
    while to <= close
        invariant
            from < to,
            from <= close < s.len(),
            tail <= close,
            reference_end(s@, from as int, from + 1, tail as int, close as int) == reference_end(
                s@,
                from as int,
                to as int,
                tail as int,
                close as int,
            ),
        decreases close + 1 - to,
    {
        let c = s[to - 1];
        if c == '"' || c == '\'' {
            return None;
        }
        if to >= tail || (to < close && (s[to] == '"' || s[to] == '\'') && to + 1 >= tail) {
            return Some(to);
        }
        to += 1;
    }
    None
}

/// The `url(..)` that begins at index `i` of `s`, if one begins there: the
/// index behind it, and where its reference begins and ends.
pub fn find_url(s: &Vec<char>, i: usize) -> (found: Option<(usize, usize, usize)>)
    ensures
        found is Some == url_at(s@, i as int) is Some,
        found is Some ==> url_at(s@, i as int)->0 == url_found(found->0) && lies_in(
            found->0,
            i as int,
            s@.len() as int,
        ),
{
    url_from(s, i, &chars_of("url"))
}

/// The `url(..)` that begins at index `i` of `s`, if one begins there: the
/// index behind it, and where its reference begins and ends. `keyword` is
/// `url`.
pub(crate) fn url_from(s: &Vec<char>, i: usize, keyword: &Vec<char>) -> (found: Option<
    (usize, usize, usize),
>)
    requires
        keyword@ == "url"@,
    ensures
        found is Some == url_at(s@, i as int) is Some,
        found is Some ==> url_at(s@, i as int)->0 == url_found(found->0) && lies_in(
            found->0,
            i as int,
            s@.len() as int,
        ),
{
    if !has_at(s, i, keyword) {
        return None;
    }
    let open = skip_spaces(s, i + keyword.len());
    if open >= s.len() || s[open] != '(' {
        return None;
    }
    let close = find_char(s, ')', open + 1);
    if close >= s.len() {
        return None;
    }
    let tail = skip_spaces_back(s, open + 1, close);
    let mut at: usize = open + 1;
    loop
        invariant
            i <= open < at <= close < s.len(),
            open + 1 <= tail <= close,
            reference_at(s@, open + 1, tail as int, close as int) == reference_at(
                s@,
                at as int,
                tail as int,
                close as int,
            ),
            url_at(s@, i as int) == match reference_at(s@, open + 1, tail as int, close as int) {
                Some(span) => Some(UrlAt { end: close + 1, from: span.from, to: span.to }),
                None => None,
            },
        decreases close - at,
    {
        let from: usize = if at < close && (s[at] == '"' || s[at] == '\'') {
            at + 1
        } else {
            at
        };
        match find_reference_end(s, from, tail, close) {
            Some(to) => {
                return Some((close + 1, from, to));
            },
            None => {
                if at < close && is_space_char(s[at]) {
                    at += 1;
                } else {
                    return None;
                }
            },
        }
    }
}

} // verus!
