//! Addresses: from a reference and the place it was found in to the URL or
//! the file path that is fetched.

use vstd::prelude::*;
use crate::text::{
    append, begins_with, chars_of, copy_of, has_at, slice_of, text_of,
};

verus! {

/// The number of characters of `s` in front of its first `?` or `#`.
pub open spec fn plain_len(s: Seq<char>) -> int
    decreases s.len(),
{
    if s.len() == 0 || s[0] == '?' || s[0] == '#' {
        0
    } else {
        1 + plain_len(s.skip(1))
    }
}

/// The address that `path` names: `path` without its query and fragment,
/// which is all from its first `?` or `#` on.
pub open spec fn normalized(path: Seq<char>) -> Seq<char> {
    path.take(plain_len(path))
}

/// Whether `address` is a data URI, which holds its content itself.
pub open spec fn is_data(address: Seq<char>) -> bool {
    begins_with(address, "data:"@)
}

/// The index of the last `c` in `s`, or -1 where there is none.
pub open spec fn last_index_of(s: Seq<char>, c: char) -> int
    decreases s.len(),
{
    if s.len() == 0 {
        -1
    } else if s.last() == c {
        s.len() - 1
    } else {
        last_index_of(s.drop_last(), c)
    }
}

/// The extension of `address`: what follows its last `.`, or all of it where
/// it has none.
pub open spec fn extension(address: Seq<char>) -> Seq<char> {
    address.skip(last_index_of(address, '.') + 1)
}

/// `reference` as a file path seen from the directory `root`: itself where
/// it begins at the top with `/`, else behind `root` and a `/` between the
/// two unless `root` is empty or ends with one.
pub open spec fn joined_path(root: Seq<char>, reference: Seq<char>) -> Seq<char> {
    if reference.len() > 0 && reference[0] == '/' {
        reference
    } else if root.len() == 0 || root.last() == '/' {
        root + reference
    } else {
        root + seq!['/'] + reference
    }
}

/// The URL that `url::Url::parse` reads from `text`, as the URL's own text;
/// `None` where `text` is no absolute URL.
pub uninterp spec fn absolute_url(text: Seq<char>) -> Option<Seq<char>>;

/// The URL that `url::Url::join` makes of `reference` seen from the URL
/// that `base` is, as the URL's own text; `None` where `base` is no
/// absolute URL or `reference` cannot be read from it.
pub uninterp spec fn joined_url(base: Seq<char>, reference: Seq<char>) -> Option<Seq<char>>;

/// The directory of the file at `location`: `location` up to its last `/`,
/// with that `/`; nothing where it has none.
pub open spec fn directory(location: Seq<char>) -> Seq<char> {
    location.take(last_index_of(location, '/') + 1)
}

/// Where the references in the style sheet at `location` are seen from: the
/// sheet's URL where it came from one, else the directory of its file.
pub open spec fn base_of(location: Seq<char>) -> Seq<char> {
    if absolute_url(location) is Some {
        location
    } else {
        directory(location)
    }
}

/// The address of `reference` given what the URL parser made of it. `joined`
/// is `None` for a sheet that did not come from a URL, else what the
/// reference gave when joined to that URL. `alone` is the absolute URL that
/// the reference itself is, if it is one. A sheet that came from a URL has
/// its references joined to that URL. In any other, a reference that is an
/// absolute URL is that URL; the rest are file paths seen from the
/// directory `base`.
pub open spec fn chosen(
    joined: Option<Option<Seq<char>>>,
    alone: Option<Seq<char>>,
    base: Seq<char>,
    reference: Seq<char>,
) -> Option<Seq<char>> {
    match joined {
        Some(url) => url,
        None => match alone {
            Some(url) => Some(url),
            None => Some(joined_path(base, reference)),
        },
    }
}

/// The address that `reference` names where it stands in a style sheet
/// whose references are seen from `base`: from the sheet's URL, or from the
/// directory that the sheet is in; `None` where the sheet came from a URL
/// and the reference cannot be read from it.
pub open spec fn resolved(reference: Seq<char>, base: Seq<char>) -> Option<Seq<char>> {
    chosen(
        if absolute_url(base) is Some {
            Some(joined_url(base, reference))
        } else {
            None
        },
        absolute_url(reference),
        base,
        reference,
    )
}

pub proof fn lemma_plain_len_bounds(s: Seq<char>)
    ensures
        0 <= plain_len(s) <= s.len(),
        forall|i: int| 0 <= i < plain_len(s) ==> #[trigger] s[i] != '?' && s[i] != '#',
        plain_len(s) < s.len() ==> s[plain_len(s)] == '?' || s[plain_len(s)] == '#',
    decreases s.len(),
{
    if !(s.len() == 0 || s[0] == '?' || s[0] == '#') {
        let t = s.skip(1);
        lemma_plain_len_bounds(t);
        assert forall|i: int| 0 <= i < plain_len(s) implies #[trigger] s[i] != '?' && s[i]
            != '#' by {
            if i > 0 {
                assert(s[i] == t[i - 1]);
            }
        }
        if plain_len(s) < s.len() {
            assert(s[plain_len(s)] == t[plain_len(t)]);
        }
    }
}

/// A normalized address holds neither `?` nor `#`, so it is its own
/// normalized address.
pub proof fn lemma_normalized_again(path: Seq<char>)
    ensures
        normalized(normalized(path)) == normalized(path),
{
    let n = normalized(path);
    lemma_plain_len_bounds(path);
    lemma_plain_len_same(n);
    assert(n.take(n.len() as int) == n);
}

proof fn lemma_plain_len_same(s: Seq<char>)
    requires
        forall|i: int| 0 <= i < s.len() ==> #[trigger] s[i] != '?' && s[i] != '#',
    ensures
        plain_len(s) == s.len(),
    decreases s.len(),
{
    if s.len() > 0 {
        let t = s.skip(1);
        assert forall|i: int| 0 <= i < t.len() implies #[trigger] t[i] != '?' && t[i] != '#' by {
            assert(t[i] == s[i + 1]);
        }
        lemma_plain_len_same(t);
    }
}

/// `Url::parse`, and the URL that it read as text. The result is that of
/// the parser for the given text and nothing else.
#[verifier::external_body]
fn parse_url(text: &str) -> (url: Option<String>)
    ensures
        url is Some == absolute_url(text@) is Some,
        url is Some ==> url->0@ == absolute_url(text@)->0,
{
    match url::Url::parse(text) {
        Ok(url) => Some(url.to_string()),
        Err(_) => None,
    }
}

/// `Url::join` on the URL that `Url::parse` reads from `base`, and the URL
/// that it made as text. The result is that of the parser for the two given
/// texts and nothing else.
#[verifier::external_body]
fn join_url(base: &str, reference: &str) -> (url: Option<String>)
    ensures
        url is Some == joined_url(base@, reference@) is Some,
        url is Some ==> url->0@ == joined_url(base@, reference@)->0,
{
    match url::Url::parse(base) {
        Ok(base) => match base.join(reference) {
            Ok(url) => Some(url.to_string()),
            Err(_) => None,
        },
        Err(_) => None,
    }
}

/// The absolute URL that `text` is, if it is one.
pub fn as_url(text: &Vec<char>) -> (url: Option<Vec<char>>)
    ensures
        texts(url) == absolute_url(text@),
{
    match parse_url(text_of(text).as_str()) {
        Some(url) => Some(chars_of(url.as_str())),
        None => None,
    }
}

/// `path` without its query and fragment.
pub fn normalize(path: &Vec<char>) -> (address: Vec<char>)
    ensures
        address@ == normalized(path@),
{
    let mut i: usize = 0;
    assert(path@.skip(0) == path@);
    while i < path.len() && path[i] != '?' && path[i] != '#'
        invariant
            i <= path.len(),
            plain_len(path@) == i + plain_len(path@.skip(i as int)),
        decreases path.len() - i,
    {
        assert(path@.skip(i as int).skip(1) == path@.skip(i + 1));
        i += 1;
    }
    let address = slice_of(path, 0, i);
    assert(path@.subrange(0, i as int) == path@.take(i as int));
    address
}

/// Whether `address` is a data URI.
pub fn has_data_scheme(address: &Vec<char>) -> (data: bool)
    ensures
        data == is_data(address@),
{
    has_at(address, 0, &chars_of("data:"))
}

/// The extension of `address`.
pub fn extension_of(address: &Vec<char>) -> (ext: Vec<char>)
    ensures
        ext@ == extension(address@),
{
    let mut n: usize = address.len();
    assert(address@.take(n as int) == address@);
    while n > 0 && address[n - 1] != '.'
        invariant
            n <= address.len(),
            last_index_of(address@, '.') == last_index_of(address@.take(n as int), '.'),
        decreases n,
    {
        assert(address@.take(n as int).drop_last() == address@.take(n - 1));
        n -= 1;
    }
    let ext = slice_of(address, n, address.len());
    assert(address@.subrange(n as int, address.len() as int) == address@.skip(n as int));
    ext
}

/// `reference` as a file path seen from the directory `root`.
pub fn join_path(root: &Vec<char>, reference: &Vec<char>) -> (path: Vec<char>)
    ensures
        path@ == joined_path(root@, reference@),
{
    if reference.len() > 0 && reference[0] == '/' {
        return copy_of(reference);
    }
    let mut path = copy_of(root);
    if root.len() > 0 && root[root.len() - 1] != '/' {
        path.push('/');
    }
    append(&mut path, reference);
    path
}

/// The address of `reference` given what the URL parser made of it.
pub fn pick(
    joined: Option<Option<Vec<char>>>,
    alone: Option<Vec<char>>,
    base: &Vec<char>,
    reference: &Vec<char>,
) -> (address: Option<Vec<char>>)
    ensures
        texts(address) == chosen(joins(joined), texts(alone), base@, reference@),
{
    match joined {
        Some(url) => url,
        None => match alone {
            Some(url) => Some(url),
            None => Some(join_path(base, reference)),
        },
    }
}

/// The characters of what a join gave, where there was one.
pub open spec fn joins(joined: Option<Option<Vec<char>>>) -> Option<Option<Seq<char>>> {
    match joined {
        Some(url) => Some(texts(url)),
        None => None,
    }
}

/// The characters of a text that may be missing.
pub open spec fn texts(text: Option<Vec<char>>) -> Option<Seq<char>> {
    match text {
        Some(text) => Some(text@),
        None => None,
    }
}

/// The address that `reference` names where it stands in a style sheet
/// whose references are seen from `base`.
pub fn resolve(reference: &Vec<char>, base: &Vec<char>) -> (address: Option<Vec<char>>)
    ensures
        texts(address) == resolved(reference@, base@),
{
    let joined = if as_url(base).is_some() {
        Some(
            match join_url(text_of(base).as_str(), text_of(reference).as_str()) {
                Some(url) => Some(chars_of(url.as_str())),
                None => None,
            },
        )
    } else {
        None
    };
    pick(joined, as_url(reference), base, reference)
}

/// The directory of the file at `location`.
pub fn directory_of(location: &Vec<char>) -> (dir: Vec<char>)
    ensures
        dir@ == directory(location@),
{
    let mut n: usize = location.len();
    assert(location@.take(n as int) == location@);
    while n > 0 && location[n - 1] != '/'
        invariant
            n <= location.len(),
            last_index_of(location@, '/') == last_index_of(location@.take(n as int), '/'),
        decreases n,
    {
        assert(location@.take(n as int).drop_last() == location@.take(n - 1));
        n -= 1;
    }
    let dir = slice_of(location, 0, n);
    assert(location@.subrange(0, n as int) == location@.take(n as int));
    dir
}

/// Where the references in the style sheet at `location` are seen from.
pub fn base_for(location: &Vec<char>) -> (base: Vec<char>)
    ensures
        base@ == base_of(location@),
{
    if as_url(location).is_some() {
        copy_of(location)
    } else {
        directory_of(location)
    }
}

} // verus!
