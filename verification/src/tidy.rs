//! What minified CSS looks like, and why minifying it again changes nothing.

use vstd::prelude::*;
use crate::minify::{
    cleared, cleared_from, closed, drops, kept, minified, rest_end, squeezed,
    squeezed_to, Gap,
};
use crate::text::{index_of, is_space, lemma_index_of};

verus! {

/// Whether `a` stands right before `b` nowhere in `s`.
pub open spec fn no_pair(s: Seq<char>, a: char, b: char) -> bool {
    forall|i: int| 0 <= i && i + 1 < s.len() ==> !(#[trigger] s[i] == a && s[i + 1] == b)
}

/// Whether the only white space in `s` is the space, and no two spaces are
/// neighbours.
pub open spec fn spaced(s: Seq<char>) -> bool {
    &&& forall|i: int| 0 <= i < s.len() && is_space(#[trigger] s[i]) ==> s[i] == ' '
    &&& no_pair(s, ' ', ' ')
}

/// Whether the first `n` characters of `s` hold `/*`.
pub open spec fn opened(s: Seq<char>, n: int) -> bool
    decreases n,
{
    2 <= n <= s.len() && (opened(s, n - 1) || (s[n - 2] == '/' && s[n - 1] == '*'))
}

/// Whether `s` holds no rest of a comment: no `*` comes behind a `/*`.
pub open spec fn no_rest(s: Seq<char>) -> bool {
    forall|k: int| 0 <= k < s.len() && #[trigger] opened(s, k) ==> s[k] != '*'
}

/// Whether none of the seven passes finds anything to do in `s`.
pub open spec fn tidy(s: Seq<char>) -> bool {
    &&& spaced(s)
    &&& no_pair(s, ':', ' ')
    &&& no_pair(s, ' ', '}')
    &&& no_pair(s, '{', ' ')
    &&& no_pair(s, ';', ' ')
    &&& no_rest(s)
}

/// `/*` in the first `n` characters stays in any longer stretch.
proof fn lemma_opened_grows(s: Seq<char>, n: int, m: int)
    requires
        opened(s, n),
        n <= m <= s.len(),
    ensures
        opened(s, m),
    decreases m - n,
{
    if n < m {
        lemma_opened_grows(s, n, m - 1);
    }
}

/// Whether the first `n` characters hold `/*` is a matter of those
/// characters alone.
proof fn lemma_opened_prefix(a: Seq<char>, b: Seq<char>, n: int)
    requires
        0 <= n <= a.len(),
        n <= b.len(),
        forall|j: int| 0 <= j < n ==> a[j] == b[j],
    ensures
        opened(a, n) == opened(b, n),
    decreases n,
{
    if n >= 2 {
        lemma_opened_prefix(a, b, n - 1);
    }
}

/// A character put behind a text that holds no rest of a comment makes
/// none, unless it is a `*` behind a `/*`.
proof fn lemma_push_no_rest(r: Seq<char>, c: char)
    requires
        no_rest(r),
        opened(r, r.len() as int) ==> c != '*',
    ensures
        no_rest(r.push(c)),
{
    let longer = r.push(c);
    assert forall|k: int| 0 <= k < longer.len() && #[trigger] opened(longer, k) implies longer[k]
        != '*' by {
        lemma_opened_prefix(longer, r, k);
    }
}

/// What the first pass leaves: its last character, that its white space is
/// single spaces, and no rest of a comment where there was none.
proof fn lemma_squeezed_shape(s: Seq<char>, n: int)
    requires
        0 <= n <= s.len(),
    ensures
        spaced(squeezed_to(s, n)),
        n > 0 && is_space(s[n - 1]) ==> squeezed_to(s, n).len() > 0 && squeezed_to(s, n).last()
            == ' ',
        n > 0 && !is_space(s[n - 1]) ==> squeezed_to(s, n).len() > 0 && squeezed_to(s, n).last()
            == s[n - 1],
        opened(squeezed_to(s, n), squeezed_to(s, n).len() as int) ==> opened(s, n),
        no_rest(s) ==> no_rest(squeezed_to(s, n)),
    decreases n,
{
    if n > 0 {
        lemma_squeezed_shape(s, n - 1);
        let before = squeezed_to(s, n - 1);
        let now = squeezed_to(s, n);
        if opened(s, n - 1) {
            lemma_opened_grows(s, n - 1, n);
        }
        if now.len() > before.len() {
            assert forall|i: int| 0 <= i && i + 1 < now.len() implies !(#[trigger] now[i] == ' '
                && now[i + 1] == ' ') by {
                if i + 1 < before.len() {
                    assert(before[i] == now[i]);
                }
            }
            lemma_opened_prefix(now, before, before.len() as int);
            if no_rest(s) {
                assert(opened(s, n - 1) ==> s[n - 1] != '*');
                lemma_push_no_rest(before, now.last());
            }
        }
    }
}

/// The first pass changes nothing where white space is single spaces.
proof fn lemma_squeezed_same(s: Seq<char>, n: int)
    requires
        spaced(s),
        0 <= n <= s.len(),
    ensures
        squeezed_to(s, n) == s.take(n),
    decreases n,
{
    if n > 0 {
        lemma_squeezed_same(s, n - 1);
        assert(s.take(n) == s.take(n - 1).push(s[n - 1]));
        if is_space(s[n - 1]) && n >= 2 {
            assert(!(s[n - 2] == ' ' && s[n - 1] == ' '));
        }
    } else {
        assert(s.take(0) == Seq::<char>::empty());
    }
}

/// A pass that finds nothing to take out changes nothing.
proof fn lemma_kept_same(gap: Gap, s: Seq<char>, n: int)
    requires
        0 <= n <= s.len(),
        forall|i: int| 0 <= i < n ==> !drops(gap, s, i),
    ensures
        kept(gap, s, n) == s.take(n),
    decreases n,
{
    if n > 0 {
        lemma_kept_same(gap, s, n - 1);
        assert(s.take(n) == s.take(n - 1).push(s[n - 1]));
    } else {
        assert(s.take(0) == Seq::<char>::empty());
    }
}

/// Without a rest of a comment the third pass changes nothing.
proof fn lemma_cleared_same(s: Seq<char>, i: int)
    requires
        no_rest(s),
        0 <= i <= s.len(),
    ensures
        cleared_from(s, i) == s.skip(i),
    decreases s.len() - i,
{
    if i < s.len() {
        lemma_cleared_same(s, i + 1);
        if i + 1 < s.len() && s[i] == '/' && s[i + 1] == '*' {
            let star = index_of(s, '*', i + 2);
            lemma_index_of(s, '*', i + 2);
            if star < s.len() {
                assert(opened(s, i + 2));
                lemma_opened_grows(s, i + 2, star);
            }
        }
        assert(rest_end(s, i) is None);
        assert(s.skip(i) == seq![s[i]] + s.skip(i + 1));
    } else {
        assert(s.skip(i) == Seq::<char>::empty());
    }
}

/// In text whose white space is single spaces, only a space behind a `:` is
/// in the run that follows the `:`.
proof fn lemma_colon_run(s: Seq<char>, i: int)
    requires
        spaced(s),
        0 <= i < s.len(),
        drops(Gap::AfterColon, s, i),
    ensures
        i > 0,
        s[i] == ' ',
        s[i - 1] == ':',
{
    if s[i - 1] != ':' {
        assert(is_space(s[i - 1]));
        assert(!(s[i - 1] == ' ' && s[i] == ' '));
    }
}

/// What a pass other than the last takes out of such text is a space, and its
/// neighbours stay.
proof fn lemma_drops_space(gap: Gap, s: Seq<char>, i: int)
    requires
        spaced(s),
        !(gap is LineFeed),
        drops(gap, s, i),
    ensures
        s[i] == ' ',
        i > 0 ==> s[i - 1] != ' ' && !drops(gap, s, i - 1),
        i + 1 < s.len() ==> s[i + 1] != ' ' && !drops(gap, s, i + 1),
        !(i > 0 && i + 1 < s.len() && s[i - 1] == '/' && s[i + 1] == '*'),
{
    if gap is AfterColon {
        lemma_colon_run(s, i);
    }
    if i > 0 {
        assert(!(s[i - 1] == ' ' && s[i] == ' '));
        if drops(gap, s, i - 1) && gap is AfterColon {
            lemma_colon_run(s, i - 1);
        }
    }
    if i + 1 < s.len() {
        assert(!(s[i] == ' ' && s[i + 1] == ' '));
        if drops(gap, s, i + 1) && gap is AfterColon {
            lemma_colon_run(s, i + 1);
        }
    }
}

/// What a pass leaves of such text: every character is one of the text, the
/// last one kept is the last or the one before it, and a pair that the text
/// does not hold between characters that stay is not in the result, unless
/// the pass joins it.
proof fn lemma_kept_shape(gap: Gap, s: Seq<char>, n: int, a: char, b: char)
    requires
        spaced(s),
        !(gap is LineFeed),
        0 <= n <= s.len(),
        forall|i: int|
            0 <= i && i + 1 < s.len() && !drops(gap, s, i) && !drops(gap, s, i + 1) ==> !(
            #[trigger] s[i] == a && s[i + 1] == b),
        forall|i: int|
            0 < i && i + 1 < s.len() && drops(gap, s, i) ==> !(s[i - 1] == a && #[trigger] s[i
                + 1] == b),
    ensures
        no_pair(kept(gap, s, n), a, b),
        forall|i: int|
            0 <= i < kept(gap, s, n).len() && is_space(#[trigger] kept(gap, s, n)[i]) ==> kept(
                gap,
                s,
                n,
            )[i] == ' ',
        n > 0 && !drops(gap, s, n - 1) ==> kept(gap, s, n).len() > 0 && kept(gap, s, n).last()
            == s[n - 1],
        n > 1 && drops(gap, s, n - 1) ==> kept(gap, s, n).len() > 0 && kept(gap, s, n).last()
            == s[n - 2],
        opened(kept(gap, s, n), kept(gap, s, n).len() as int) ==> opened(s, n),
        no_rest(s) ==> no_rest(kept(gap, s, n)),
    decreases n,
{
    if n > 0 {
        lemma_kept_shape(gap, s, n - 1, a, b);
        let before = kept(gap, s, n - 1);
        let now = kept(gap, s, n);
        if opened(s, n - 1) {
            lemma_opened_grows(s, n - 1, n);
        }
        if drops(gap, s, n - 1) {
            lemma_drops_space(gap, s, n - 1);
        } else {
            lemma_opened_prefix(now, before, before.len() as int);
            if n >= 2 && drops(gap, s, n - 2) {
                lemma_drops_space(gap, s, n - 2);
                if n == 2 {
                    assert(kept(gap, s, 0).len() == 0);
                }
            }
            if no_rest(s) {
                assert(opened(s, n - 1) ==> s[n - 1] != '*');
                lemma_push_no_rest(before, s[n - 1]);
            }
            assert forall|i: int| 0 <= i && i + 1 < now.len() implies !(#[trigger] now[i] == a
                && now[i + 1] == b) by {
                if i + 1 < before.len() {
                    assert(before[i] == now[i]);
                } else if n >= 2 {
                    if drops(gap, s, n - 2) {
                        lemma_drops_space(gap, s, n - 2);
                        if n >= 3 {
                            assert(now[i] == s[n - 3]);
                            assert(!(s[n - 3] == a && s[n - 1] == b));
                        } else {
                            assert(kept(gap, s, 0).len() == 0);
                            assert(before.len() == 0);
                        }
                    } else {
                        assert(now[i] == s[n - 2]);
                        assert(!(s[n - 2] == a && s[n - 1] == b));
                    }
                }
            }
        }
    }
}

/// A pass other than the last keeps single spaces single and makes no rest
/// of a comment.
proof fn lemma_closed_spaced(gap: Gap, s: Seq<char>)
    requires
        spaced(s),
        !(gap is LineFeed),
    ensures
        spaced(closed(gap, s)),
        no_rest(s) ==> no_rest(closed(gap, s)),
{
    let n = s.len() as int;
    assert forall|i: int| 0 < i && i + 1 < s.len() && drops(gap, s, i) implies !(s[i - 1] == ' '
        && #[trigger] s[i + 1] == ' ') by {
        lemma_drops_space(gap, s, i);
    }
    lemma_kept_shape(gap, s, n, ' ', ' ');
}

/// A pass other than the last keeps out a pair with a space in it that its
/// text does not hold between characters that stay.
proof fn lemma_closed_pair(gap: Gap, s: Seq<char>, a: char, b: char)
    requires
        spaced(s),
        !(gap is LineFeed),
        a == ' ' || b == ' ',
        forall|i: int|
            0 <= i && i + 1 < s.len() && !drops(gap, s, i) && !drops(gap, s, i + 1) ==> !(
            #[trigger] s[i] == a && s[i + 1] == b),
    ensures
        no_pair(closed(gap, s), a, b),
{
    assert forall|i: int| 0 < i && i + 1 < s.len() && drops(gap, s, i) implies !(s[i - 1] == a
        && #[trigger] s[i + 1] == b) by {
        lemma_drops_space(gap, s, i);
    }
    lemma_kept_shape(gap, s, s.len() as int, a, b);
}

/// Minifying tidy text gives the text back.
pub proof fn lemma_tidy_is_fixed(css: Seq<char>)
    requires
        tidy(css),
    ensures
        minified(css) == css,
{
    let n = css.len() as int;
    assert(css.take(n) == css);
    lemma_squeezed_same(css, n);
    assert forall|i: int| 0 <= i < n implies !drops(Gap::AfterColon, css, i) by {
        if drops(Gap::AfterColon, css, i) {
            lemma_colon_run(css, i);
            assert(!(css[i - 1] == ':' && css[i] == ' '));
        }
    }
    lemma_kept_same(Gap::AfterColon, css, n);
    lemma_cleared_same(css, 0);
    assert(css.skip(0) == css);
    assert forall|i: int| 0 <= i < n implies !drops(Gap::BeforeClose, css, i) by {
        if i + 1 < n {
            assert(!(css[i] == ' ' && css[i + 1] == '}'));
        }
    }
    lemma_kept_same(Gap::BeforeClose, css, n);
    assert forall|i: int| 0 <= i < n implies !drops(Gap::AfterOpen, css, i) by {
        if i > 0 {
            assert(!(css[i - 1] == '{' && css[i] == ' '));
        }
    }
    lemma_kept_same(Gap::AfterOpen, css, n);
    assert forall|i: int| 0 <= i < n implies !drops(Gap::AfterSemicolon, css, i) by {
        if i > 0 {
            assert(!(css[i - 1] == ';' && css[i] == ' '));
        }
    }
    lemma_kept_same(Gap::AfterSemicolon, css, n);
    assert forall|i: int| 0 <= i < n implies !drops(Gap::LineFeed, css, i) by {
        assert(is_space('\n'));
    }
    lemma_kept_same(Gap::LineFeed, css, n);
}

/// Minifying text without a rest of a comment gives tidy text.
pub proof fn lemma_minified_is_tidy(css: Seq<char>)
    requires
        no_rest(css),
    ensures
        tidy(minified(css)),
{
    let a = squeezed(css);
    lemma_squeezed_shape(css, css.len() as int);

    let b = closed(Gap::AfterColon, a);
    lemma_closed_spaced(Gap::AfterColon, a);
    lemma_closed_pair(Gap::AfterColon, a, ':', ' ');

    let c = cleared(b);
    lemma_cleared_same(b, 0);
    assert(b.skip(0) == b);

    let d = closed(Gap::BeforeClose, c);
    lemma_closed_spaced(Gap::BeforeClose, c);
    lemma_closed_pair(Gap::BeforeClose, c, ':', ' ');
    lemma_closed_pair(Gap::BeforeClose, c, ' ', '}');

    let e = closed(Gap::AfterOpen, d);
    lemma_closed_spaced(Gap::AfterOpen, d);
    lemma_closed_pair(Gap::AfterOpen, d, ':', ' ');
    lemma_closed_pair(Gap::AfterOpen, d, ' ', '}');
    lemma_closed_pair(Gap::AfterOpen, d, '{', ' ');

    let f = closed(Gap::AfterSemicolon, e);
    lemma_closed_spaced(Gap::AfterSemicolon, e);
    lemma_closed_pair(Gap::AfterSemicolon, e, ':', ' ');
    lemma_closed_pair(Gap::AfterSemicolon, e, ' ', '}');
    lemma_closed_pair(Gap::AfterSemicolon, e, '{', ' ');
    lemma_closed_pair(Gap::AfterSemicolon, e, ';', ' ');

    assert forall|i: int| 0 <= i < f.len() implies !drops(Gap::LineFeed, f, i) by {
        assert(is_space('\n'));
    }
    lemma_kept_same(Gap::LineFeed, f, f.len() as int);
    assert(f.take(f.len() as int) == f);
}

/// Minification is idempotent on CSS that holds no rest of a comment:
/// minifying what was minified gives it back unchanged.
pub proof fn minify_is_idempotent(css: Seq<char>)
    requires
        no_rest(css),
    ensures
        minified(minified(css)) == minified(css),
{
    lemma_minified_is_tidy(css);
    lemma_tidy_is_fixed(minified(css));
}

} // verus!
