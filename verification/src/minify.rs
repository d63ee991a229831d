//! Minification of CSS text: seven passes, each over the result of the one
//! before it.
//!
//! 1. every run of white space becomes one space;
//! 2. white space after a `:` goes;
//! 3. what is left of a comment goes: `/*` and all up to the next `*`;
//! 4. a space before `}` goes;
//! 5. a space after `{` goes;
//! 6. a space after `;` goes;
//! 7. line feeds go.

use vstd::prelude::*;
use crate::text::{chars_of, find_char, index_of, is_space, is_space_char, text_of};

verus! {

/// The first `n` characters of `s` with every run of white space turned into
/// one space.
pub open spec fn squeezed_to(s: Seq<char>, n: int) -> Seq<char>
    decreases n,
{
    if n <= 0 {
        Seq::empty()
    } else if !is_space(s[n - 1]) {
        squeezed_to(s, n - 1).push(s[n - 1])
    } else if n >= 2 && is_space(s[n - 2]) {
        squeezed_to(s, n - 1)
    } else {
        squeezed_to(s, n - 1).push(' ')
    }
}

/// `s` with every run of white space turned into one space.
pub open spec fn squeezed(s: Seq<char>) -> Seq<char> {
    squeezed_to(s, s.len() as int)
}

/// The places where a pass takes a character out.
pub enum Gap {
    /// White space in the run that follows a `:`.
    AfterColon,
    /// A space with `}` right behind it.
    BeforeClose,
    /// A space right behind `{`.
    AfterOpen,
    /// A space right behind `;`.
    AfterSemicolon,
    /// A line feed.
    LineFeed,
}

/// Whether only white space, if anything, lies between a `:` and index `i`.
pub open spec fn colon_before(s: Seq<char>, i: int) -> bool
    decreases i,
{
    i > 0 && i <= s.len() && (s[i - 1] == ':' || (is_space(s[i - 1]) && colon_before(s, i - 1)))
}

/// Whether the pass for `gap` takes out the character of `s` at index `i`.
pub open spec fn drops(gap: Gap, s: Seq<char>, i: int) -> bool {
    &&& 0 <= i < s.len()
    &&& match gap {
        Gap::AfterColon => is_space(s[i]) && colon_before(s, i),
        Gap::BeforeClose => s[i] == ' ' && i + 1 < s.len() && s[i + 1] == '}',
        Gap::AfterOpen => s[i] == ' ' && i > 0 && s[i - 1] == '{',
        Gap::AfterSemicolon => s[i] == ' ' && i > 0 && s[i - 1] == ';',
        Gap::LineFeed => s[i] == '\n',
    }
}

/// The first `n` characters of `s` without those that the pass for `gap`
/// takes out.
pub open spec fn kept(gap: Gap, s: Seq<char>, n: int) -> Seq<char>
    decreases n,
{
    if n <= 0 {
        Seq::empty()
    } else if drops(gap, s, n - 1) {
        kept(gap, s, n - 1)
    } else {
        kept(gap, s, n - 1).push(s[n - 1])
    }
}

/// `s` after the pass for `gap`.
pub open spec fn closed(gap: Gap, s: Seq<char>) -> Seq<char> {
    kept(gap, s, s.len() as int)
}

/// Where the comment rest that begins at index `i` of `s` ends: `s` has `/*`
/// at `i`, and the result is the index behind the next `*`, which stands on
/// the same line.
pub open spec fn rest_end(s: Seq<char>, i: int) -> Option<int> {
    if 0 <= i && i + 1 < s.len() && s[i] == '/' && s[i + 1] == '*' {
        let star = index_of(s, '*', i + 2);
        if star < s.len() && star < index_of(s, '\n', i + 2) {
            Some(star + 1)
        } else {
            None
        }
    } else {
        None
    }
}

/// `s` from index `i` on without the comment rests, found from the left.
pub open spec fn cleared_from(s: Seq<char>, i: int) -> Seq<char>
    decreases s.len() - i,
{
    if i < 0 || i >= s.len() {
        Seq::empty()
    } else {
        match rest_end(s, i) {
            Some(end) if end > i => cleared_from(s, end),
            _ => seq![s[i]] + cleared_from(s, i + 1),
        }
    }
}

/// `s` without the comment rests.
pub open spec fn cleared(s: Seq<char>) -> Seq<char> {
    cleared_from(s, 0)
}

/// Minified CSS: the seven passes in their order.
pub open spec fn minified(css: Seq<char>) -> Seq<char> {
    let a = squeezed(css);
    let b = closed(Gap::AfterColon, a);
    let c = cleared(b);
    let d = closed(Gap::BeforeClose, c);
    let e = closed(Gap::AfterOpen, d);
    let f = closed(Gap::AfterSemicolon, e);
    closed(Gap::LineFeed, f)
}

/// Turns every run of white space into one space.
pub fn squeeze(s: &Vec<char>) -> (out: Vec<char>)
    ensures
        out@ == squeezed(s@),
{
    let mut out: Vec<char> = Vec::new();
    let mut i: usize = 0;
    let mut in_run = false;
    while i < s.len()
        invariant
            i <= s.len(),
            out@ == squeezed_to(s@, i as int),
            in_run == (i > 0 && is_space(s@[i - 1])),
        decreases s.len() - i,
    {
        let c = s[i];
        if is_space_char(c) {
            if !in_run {
                out.push(' ');
            }
            in_run = true;
        } else {
            out.push(c);
            in_run = false;
        }
        i += 1;
    }
    out
}

/// One pass that takes characters out: the one for `gap`.
pub fn close(gap: &Gap, s: &Vec<char>) -> (out: Vec<char>)
    ensures
        out@ == closed(*gap, s@),
{
    let mut out: Vec<char> = Vec::new();
    let mut i: usize = 0;
    let mut colon = false;
    while i < s.len()
        invariant
            i <= s.len(),
            out@ == kept(*gap, s@, i as int),
            colon == colon_before(s@, i as int),
        decreases s.len() - i,
    {
        let c = s[i];
        let space = is_space_char(c);
        let gone = match gap {
            Gap::AfterColon => space && colon,
            Gap::BeforeClose => c == ' ' && i + 1 < s.len() && s[i + 1] == '}',
            Gap::AfterOpen => c == ' ' && i > 0 && s[i - 1] == '{',
            Gap::AfterSemicolon => c == ' ' && i > 0 && s[i - 1] == ';',
            Gap::LineFeed => c == '\n',
        };
        if !gone {
            out.push(c);
        }
        colon = c == ':' || (space && colon);
        i += 1;
    }
    out
}

/// Takes out the comment rests.
pub fn clear(s: &Vec<char>) -> (out: Vec<char>)
    ensures
        out@ == cleared(s@),
{
    let mut out: Vec<char> = Vec::new();
    let mut i: usize = 0;
    while i < s.len()
        invariant
            i <= s.len(),
            out@ + cleared_from(s@, i as int) == cleared(s@),
        decreases s.len() - i,
    {
        let mut end: usize = i;
        if s[i] == '/' && i + 1 < s.len() && s[i + 1] == '*' {
            let star = find_char(s, '*', i + 2);
            let feed = find_char(s, '\n', i + 2);
            if star < s.len() && star < feed {
                end = star + 1;
            }
        }
        if end > i {
            i = end;
        } else {
            proof {
                let rest = cleared_from(s@, i + 1);
                assert(out@.push(s@[i as int]) + rest == out@ + (seq![s@[i as int]] + rest));
            }
            out.push(s[i]);
            i += 1;
        }
    }
    assert(out@ + Seq::<char>::empty() == out@);
    out
}

/// Minifies CSS held as characters.
pub fn minify(css: &Vec<char>) -> (out: Vec<char>)
    ensures
        out@ == minified(css@),
{
    let a = squeeze(css);
    let b = close(&Gap::AfterColon, &a);
    let c = clear(&b);
    let d = close(&Gap::BeforeClose, &c);
    let e = close(&Gap::AfterOpen, &d);
    let f = close(&Gap::AfterSemicolon, &e);
    close(&Gap::LineFeed, &f)
}

/// Minifies CSS.
pub fn compress_css(css: &str) -> (out: String)
    ensures
        out@ == minified(css@),
{
    let chars = chars_of(css);
    let small = minify(&chars);
    text_of(&small)
}

} // verus!
