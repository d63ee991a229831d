//! Inlining in CSS text. A style sheet goes through four steps:
//!
//! 1. its comments go;
//! 2. each `@import` statement gives way to the sheet that it names, which
//!    has gone through the same four steps, under `@media` where the
//!    statement has a condition;
//! 3. each `url(..)` that is no data URI gives way to `url('..')` around
//!    what is inlined for its reference, or around the reference itself
//!    where nothing is;
//! 4. the result is minified.
//!
//! The references in a sheet are seen from the sheet's own place: from its
//! URL where it came from one, else from the directory of its file. A sheet
//! that is part of the document is seen from the directory of the document.
//!
//! A fetch that failed ends the sheet with that failure. So does a sheet
//! that imports itself, directly or through others, and an `@import` whose
//! reference cannot be read as an address.
//!
//! Each function that runs over a sheet has a second result: the addresses
//! that it found left out before any fetch, in the order in which it met
//! them. They are noted in the cache once the run is over.

use vstd::prelude::*;
use crate::address::{
    base_for, base_of, has_data_scheme, is_data, resolve, resolved,
};
use crate::cache::{
    keys, lemma_unvisited_less, lookup, lookup_notes, noted_all, place, resolution, unvisited,
    Cache, Entry, EntryView, Found, LookupView, Resolution,
};
use crate::config::{Config, Error, ErrorView};
use crate::minify::{minified, minify};
use crate::scan::{
    import_at, import_condition, import_from, import_reference, quoted, read_import,
    strip_comments, uncommented, url_at, url_from, wrapped,
};
use crate::step::{behind, maybe, scene_of, Outcome, Pass, Scene, Step};
use crate::text::{
    append, chars_of, copy_of, ends_with, finishes_with, same_text, slice_of, text_of, trim,
    trimmed,
};

verus! {

/// What stands behind `address` in a sheet. An address in a sheet is
/// complete: it is seen from nowhere.
pub open spec fn within(scene: Scene, address: Seq<char>) -> Resolution {
    resolution(scene.slots, address, scene.config, Seq::empty())
}

/// What looking up `address` in a sheet leaves to note.
pub open spec fn within_notes(scene: Scene, address: Seq<char>) -> Seq<Seq<char>> {
    lookup_notes(address, scene.config, Seq::empty())
}

/// The location of `address` in a sheet.
pub open spec fn within_place(scene: Scene, address: Seq<char>) -> Seq<char> {
    place(address, scene.config, Seq::empty())
}

/// What a `url(..)` with the given reference becomes in a sheet whose
/// references are seen from `base`.
pub open spec fn url_value(scene: Scene, reference: Seq<char>, base: Seq<char>) -> Outcome<
    Seq<char>,
> {
    match resolved(reference, base) {
        None => Outcome::Done(quoted(reference)),
        Some(address) => match within(scene, address) {
            Resolution::Wanted(request) => Outcome::Fetch(request),
            Resolution::Known(EntryView::Failed(error)) => Outcome::Failed(error),
            Resolution::Known(EntryView::Inlined(value)) => Outcome::Done(
                quoted(
                    if finishes_with(address, ".css"@) {
                        minified(value)
                    } else {
                        value
                    },
                ),
            ),
            _ => Outcome::Done(quoted(reference)),
        },
    }
}

/// What a `url(..)` with the given reference leaves to note.
pub open spec fn url_notes(scene: Scene, reference: Seq<char>, base: Seq<char>) -> Seq<Seq<char>> {
    match resolved(reference, base) {
        None => Seq::empty(),
        Some(address) => within_notes(scene, address),
    }
}

/// `s` from index `i` on, each `url(..)` in it inlined.
pub open spec fn urls_from(scene: Scene, s: Seq<char>, i: int, base: Seq<char>) -> Outcome<
    Seq<char>,
>
    decreases s.len() - i,
{
    if i < 0 || i >= s.len() {
        Outcome::Done(Seq::empty())
    } else {
        match url_at(s, i) {
            Some(found) if i < found.end <= s.len() => {
                let reference = s.subrange(found.from, found.to);
                let piece = if is_data(trimmed(reference)) {
                    Outcome::Done(s.subrange(i, found.end))
                } else {
                    url_value(scene, reference, base)
                };
                match piece {
                    Outcome::Done(text) => behind(text, urls_from(scene, s, found.end, base)),
                    other => other,
                }
            },
            _ => behind(seq![s[i]], urls_from(scene, s, i + 1, base)),
        }
    }
}

/// What inlining each `url(..)` in `s` from index `i` on leaves to note.
pub open spec fn urls_notes_from(scene: Scene, s: Seq<char>, i: int, base: Seq<char>) -> Seq<
    Seq<char>,
>
    decreases s.len() - i,
{
    if i < 0 || i >= s.len() {
        Seq::empty()
    } else {
        match url_at(s, i) {
            Some(found) if i < found.end <= s.len() => {
                let reference = s.subrange(found.from, found.to);
                if is_data(trimmed(reference)) {
                    urls_notes_from(scene, s, found.end, base)
                } else if url_value(scene, reference, base) is Done {
                    url_notes(scene, reference, base) + urls_notes_from(
                        scene,
                        s,
                        found.end,
                        base,
                    )
                } else {
                    url_notes(scene, reference, base)
                }
            },
            _ => urls_notes_from(scene, s, i + 1, base),
        }
    }
}

/// The sheet at `address`, inlined, as it goes into a sheet that imports
/// it. `chain` holds the locations of the sheets that are being inlined
/// around this one. Nothing comes for a sheet that is left out.
pub open spec fn imported(scene: Scene, address: Seq<char>, chain: Seq<Seq<char>>) -> Outcome<
    Seq<char>,
>
    decreases unvisited(scene.slots, chain), 0int, 0int,
{
    let key = within_place(scene, address);
    match within(scene, address) {
        Resolution::Skipped => Outcome::Done(Seq::empty()),
        Resolution::Wanted(request) => Outcome::Fetch(request),
        Resolution::Known(EntryView::Failed(error)) => Outcome::Failed(error),
        Resolution::Known(EntryView::Excluded) => Outcome::Done(Seq::empty()),
        Resolution::Known(EntryView::Inlined(css)) => {
            if chain.contains(key) {
                Outcome::Failed(ErrorView::ImportCycle(key))
            } else {
                proof {
                    lemma_unvisited_less(scene.slots, chain, key);
                }
                sheet(scene, css, base_of(key), chain.push(key))
            }
        },
    }
}

/// What takes the place of an `@import` statement that says `body` between
/// `@import` and `;`, in a sheet whose references are seen from `base`.
pub open spec fn import_value(
    scene: Scene,
    body: Seq<char>,
    base: Seq<char>,
    chain: Seq<Seq<char>>,
) -> Outcome<Seq<char>>
    decreases unvisited(scene.slots, chain), 1int, 0int,
{
    match resolved(import_reference(body), base) {
        None => Outcome::Failed(ErrorView::InvalidPath(import_reference(body))),
        Some(address) => match imported(scene, address, chain) {
            Outcome::Done(css) => Outcome::Done(wrapped(import_condition(body), css)),
            other => other,
        },
    }
}

/// `s` from index `i` on, each `@import` statement in it inlined.
pub open spec fn imports_from(
    scene: Scene,
    s: Seq<char>,
    i: int,
    base: Seq<char>,
    chain: Seq<Seq<char>>,
) -> Outcome<Seq<char>>
    decreases unvisited(scene.slots, chain), 2int, s.len() - i,
{
    if i < 0 || i >= s.len() {
        Outcome::Done(Seq::empty())
    } else {
        match import_at(s, i) {
            Some(semicolon) if i <= semicolon < s.len() => {
                let body = s.subrange(i + "@import"@.len(), semicolon);
                match import_value(scene, body, base, chain) {
                    Outcome::Done(css) => behind(
                        css,
                        imports_from(scene, s, semicolon + 1, base, chain),
                    ),
                    other => other,
                }
            },
            _ => behind(seq![s[i]], imports_from(scene, s, i + 1, base, chain)),
        }
    }
}

/// The sheet `css`, inlined. Its references are seen from `base`.
pub open spec fn sheet(scene: Scene, css: Seq<char>, base: Seq<char>, chain: Seq<Seq<char>>)
    -> Outcome<Seq<char>>
    decreases unvisited(scene.slots, chain), 3int, 0int,
{
    match imports_from(scene, uncommented(css), 0, base, chain) {
        Outcome::Done(joined) => match urls_from(scene, joined, 0, base) {
            Outcome::Done(filled) => Outcome::Done(minified(filled)),
            other => other,
        },
        other => other,
    }
}

/// What inlining the sheet at `address` leaves to note.
pub open spec fn imported_notes(scene: Scene, address: Seq<char>, chain: Seq<Seq<char>>) -> Seq<
    Seq<char>,
>
    decreases unvisited(scene.slots, chain), 0int, 0int,
{
    let key = within_place(scene, address);
    match within(scene, address) {
        Resolution::Known(EntryView::Inlined(css)) => {
            if chain.contains(key) {
                Seq::empty()
            } else {
                proof {
                    lemma_unvisited_less(scene.slots, chain, key);
                }
                sheet_notes(scene, css, base_of(key), chain.push(key))
            }
        },
        _ => within_notes(scene, address),
    }
}

/// What inlining an `@import` statement leaves to note.
pub open spec fn import_notes(
    scene: Scene,
    body: Seq<char>,
    base: Seq<char>,
    chain: Seq<Seq<char>>,
) -> Seq<Seq<char>>
    decreases unvisited(scene.slots, chain), 1int, 0int,
{
    match resolved(import_reference(body), base) {
        None => Seq::empty(),
        Some(address) => imported_notes(scene, address, chain),
    }
}

/// What inlining each `@import` statement in `s` from index `i` on leaves to
/// note.
pub open spec fn imports_notes_from(
    scene: Scene,
    s: Seq<char>,
    i: int,
    base: Seq<char>,
    chain: Seq<Seq<char>>,
) -> Seq<Seq<char>>
    decreases unvisited(scene.slots, chain), 2int, s.len() - i,
{
    if i < 0 || i >= s.len() {
        Seq::empty()
    } else {
        match import_at(s, i) {
            Some(semicolon) if i <= semicolon < s.len() => {
                let body = s.subrange(i + "@import"@.len(), semicolon);
                if import_value(scene, body, base, chain) is Done {
                    import_notes(scene, body, base, chain) + imports_notes_from(
                        scene,
                        s,
                        semicolon + 1,
                        base,
                        chain,
                    )
                } else {
                    import_notes(scene, body, base, chain)
                }
            },
            _ => imports_notes_from(scene, s, i + 1, base, chain),
        }
    }
}

/// What inlining the sheet `css` leaves to note.
pub open spec fn sheet_notes(scene: Scene, css: Seq<char>, base: Seq<char>, chain: Seq<Seq<char>>)
    -> Seq<Seq<char>>
    decreases unvisited(scene.slots, chain), 3int, 0int,
{
    match imports_from(scene, uncommented(css), 0, base, chain) {
        Outcome::Done(joined) => imports_notes_from(scene, uncommented(css), 0, base, chain)
            + urls_notes_from(scene, joined, 0, base),
        _ => imports_notes_from(scene, uncommented(css), 0, base, chain),
    }
}

/// Where the references of a sheet found at `css_path` are seen from. A
/// sheet that is part of the document is found at the directory of the
/// document, `root`, and seen from there; any other is seen from its own
/// place.
pub open spec fn seen_from(css_path: Seq<char>, root: Seq<char>) -> Seq<char> {
    if css_path == root {
        root
    } else {
        base_of(css_path)
    }
}

/// The sheet that the reference `path` names, inlined; `None` where nothing
/// is inlined for `path`, which is also where its fetch failed. The
/// sheet's references are seen from the place that it was fetched from.
pub open spec fn sheet_at(scene: Scene, path: Seq<char>) -> Outcome<Option<Seq<char>>> {
    match lookup(scene.slots, path, scene.config, scene.root) {
        LookupView::Fetch(request) => Outcome::Fetch(request),
        LookupView::Value(None) => Outcome::Done(None),
        LookupView::Value(Some(css)) => match sheet(
            scene,
            css,
            base_of(place(path, scene.config, scene.root)),
            seq![place(path, scene.config, scene.root)],
        ) {
            Outcome::Done(text) => Outcome::Done(Some(text)),
            Outcome::Fetch(request) => Outcome::Fetch(request),
            Outcome::Failed(error) => Outcome::Failed(error),
        },
    }
}

/// What inlining the sheet that the reference `path` names leaves to note.
pub open spec fn sheet_at_notes(scene: Scene, path: Seq<char>) -> Seq<Seq<char>> {
    match lookup(scene.slots, path, scene.config, scene.root) {
        LookupView::Value(Some(css)) => sheet_notes(
            scene,
            css,
            base_of(place(path, scene.config, scene.root)),
            seq![place(path, scene.config, scene.root)],
        ),
        _ => lookup_notes(path, scene.config, scene.root),
    }
}

proof fn lemma_behind_twice(a: Seq<char>, b: Seq<char>, rest: Outcome<Seq<char>>)
    ensures
        behind(a, behind(b, rest)) == behind(a + b, rest),
{
    match rest {
        Outcome::Done(text) => {
            assert(a + (b + text) == (a + b) + text);
        },
        _ => {},
    }
}

/// Whether `key` is in `chain`.
fn chain_has(chain: &Vec<Vec<char>>, key: &Vec<char>) -> (has: bool)
    ensures
        has == keys(chain@).contains(key@),
{
    let mut i: usize = 0;
    while i < chain.len()
        invariant
            i <= chain.len(),
            forall|j: int| 0 <= j < i ==> keys(chain@)[j] != key@,
        decreases chain.len() - i,
    {
        if same_text(&chain[i], key) {
            assert(keys(chain@)[i as int] == key@);
            return true;
        }
        i += 1;
    }
    false
}

/// `chain` with `key` at its end.
fn chain_with(chain: &Vec<Vec<char>>, key: Vec<char>) -> (longer: Vec<Vec<char>>)
    ensures
        keys(longer@) == keys(chain@).push(key@),
{
    let mut longer: Vec<Vec<char>> = Vec::new();
    let mut i: usize = 0;
    while i < chain.len()
        invariant
            i <= chain.len(),
            longer.len() == i,
            forall|j: int| 0 <= j < i ==> (#[trigger] longer@[j])@ == chain@[j]@,
        decreases chain.len() - i,
    {
        longer.push(copy_of(&chain[i]));
        i += 1;
    }
    longer.push(key);
    assert(keys(longer@).len() == keys(chain@).push(key@).len());
    assert forall|j: int| 0 <= j < keys(longer@).len() implies keys(longer@)[j] == keys(
        chain@,
    ).push(key@)[j] by {
        if j < chain.len() {
            assert(keys(longer@)[j] == longer@[j]@);
        }
    }
    assert(keys(longer@) =~= keys(chain@).push(key@));
    longer
}

/// `url('..')` around `value`.
fn quote(value: &Vec<char>) -> (text: Vec<char>)
    ensures
        text@ == quoted(value@),
{
    let mut text = chars_of("url('");
    append(&mut text, value);
    append(&mut text, &chars_of("')"));
    text
}

/// What a `url(..)` with the given reference becomes.
fn inline_url(
    pass: &Pass,
    reference: &Vec<char>,
    base: &Vec<char>,
    notes: &mut Vec<Vec<char>>,
) -> (step: Step<Vec<char>>)
    ensures
        step@ == url_value(pass@, reference@, base@),
        keys(final(notes)@) == keys(old(notes)@) + url_notes(pass@, reference@, base@),
{
    let address = match resolve(reference, base) {
        Some(address) => address,
        None => {
            assert(keys(notes@) + Seq::<Seq<char>>::empty() =~= keys(notes@));
            return Step::Done(quote(reference));
        },
    };
    let nowhere: Vec<char> = Vec::new();
    match pass.cache.look(&address, pass.config, &nowhere, notes) {
        Found::Wanted(request) => Step::Fetch(request),
        Found::Skipped(_) => Step::Done(quote(reference)),
        Found::Known(at) => match pass.cache.entry(at) {
            Entry::Failed(error) => Step::Failed(error.duplicate()),
            Entry::Excluded => Step::Done(quote(reference)),
            Entry::Inlined(value) => {
                if ends_with(&address, &chars_of(".css")) {
                    Step::Done(quote(&minify(value)))
                } else {
                    Step::Done(quote(value))
                }
            },
        },
    }
}

/// `s` with each `url(..)` in it inlined.
fn inline_urls(pass: &Pass, s: &Vec<char>, base: &Vec<char>, notes: &mut Vec<Vec<char>>) -> (step:
    Step<Vec<char>>)
    ensures
        step@ == urls_from(pass@, s@, 0, base@),
        keys(final(notes)@) == keys(old(notes)@) + urls_notes_from(pass@, s@, 0, base@),
{
    let keyword = chars_of("url");
    let mut out: Vec<char> = Vec::new();
    let mut i: usize = 0;
    let ghost all = urls_notes_from(pass@, s@, 0, base@);
    assert(Seq::<char>::empty() + urls_from(pass@, s@, 0, base@)->Done_0 == urls_from(
        pass@,
        s@,
        0,
        base@,
    )->Done_0);
    while i < s.len()
        invariant
            i <= s.len(),
            keyword@ == "url"@,
            all == urls_notes_from(pass@, s@, 0, base@),
            urls_from(pass@, s@, 0, base@) == behind(out@, urls_from(pass@, s@, i as int, base@)),
            keys(old(notes)@) + all == keys(notes@) + urls_notes_from(
                pass@,
                s@,
                i as int,
                base@,
            ),
        decreases s.len() - i,
    {
        let ghost before = keys(notes@);
        match url_from(s, i, &keyword) {
            Some((end, from, to)) => {
                let reference = slice_of(s, from, to);
                let ghost rest = urls_notes_from(pass@, s@, end as int, base@);
                let piece = if has_data_scheme(&trim(&reference)) {
                    Step::Done(slice_of(s, i, end))
                } else {
                    let piece = inline_url(pass, &reference, base, notes);
                    proof {
                        let met = url_notes(pass@, reference@, base@);
                        assert((before + met) + rest == before + (met + rest));
                        assert(before + met + Seq::<Seq<char>>::empty() == before + met);
                    }
                    piece
                };
                match piece {
                    Step::Done(text) => {
                        proof {
                            lemma_behind_twice(
                                out@,
                                text@,
                                urls_from(pass@, s@, end as int, base@),
                            );
                        }
                        append(&mut out, &text);
                        i = end;
                    },
                    Step::Fetch(request) => {
                        return Step::Fetch(request);
                    },
                    Step::Failed(error) => {
                        return Step::Failed(error);
                    },
                }
            },
            None => {
                proof {
                    lemma_behind_twice(
                        out@,
                        seq![s@[i as int]],
                        urls_from(pass@, s@, i + 1, base@),
                    );
                    assert(out@.push(s@[i as int]) == out@ + seq![s@[i as int]]);
                }
                out.push(s[i]);
                i += 1;
            },
        }
    }
    assert(out@ + Seq::<char>::empty() == out@);
    assert(keys(notes@) + Seq::<Seq<char>>::empty() == keys(notes@));
    Step::Done(out)
}

/// The sheet at `address`, inlined, as it goes into a sheet that imports it.
fn inline_import(
    pass: &Pass,
    address: &Vec<char>,
    chain: &Vec<Vec<char>>,
    notes: &mut Vec<Vec<char>>,
) -> (step: Step<Vec<char>>)
    ensures
        step@ == imported(pass@, address@, keys(chain@)),
        keys(final(notes)@) == keys(old(notes)@) + imported_notes(
            pass@,
            address@,
            keys(chain@),
        ),
    decreases unvisited(pass@.slots, keys(chain@)), 0int, 0int,
{
    let nowhere: Vec<char> = Vec::new();
    match pass.cache.look(address, pass.config, &nowhere, notes) {
        Found::Skipped(_) => Step::Done(Vec::new()),
        Found::Wanted(request) => Step::Fetch(request),
        Found::Known(at) => match pass.cache.entry(at) {
            Entry::Failed(error) => Step::Failed(error.duplicate()),
            Entry::Excluded => Step::Done(Vec::new()),
            Entry::Inlined(css) => {
                let key = pass.cache.key(at);
                assert(keys(notes@) =~= keys(old(notes)@));
                if chain_has(chain, key) {
                    assert(keys(notes@) + Seq::<Seq<char>>::empty() == keys(notes@));
                    Step::Failed(Error::ImportCycle(text_of(key)))
                } else {
                    proof {
                        lemma_unvisited_less(pass@.slots, keys(chain@), key@);
                    }
                    let longer = chain_with(chain, copy_of(key));
                    inline_sheet(pass, css, &base_for(key), &longer, notes)
                }
            },
        },
    }
}

/// What takes the place of an `@import` statement that says `body`.
fn inline_statement(
    pass: &Pass,
    body: &Vec<char>,
    base: &Vec<char>,
    chain: &Vec<Vec<char>>,
    notes: &mut Vec<Vec<char>>,
) -> (step: Step<Vec<char>>)
    ensures
        step@ == import_value(pass@, body@, base@, keys(chain@)),
        keys(final(notes)@) == keys(old(notes)@) + import_notes(
            pass@,
            body@,
            base@,
            keys(chain@),
        ),
    decreases unvisited(pass@.slots, keys(chain@)), 1int, 0int,
{
    let (reference, condition) = read_import(body);
    let address = match resolve(&reference, base) {
        Some(address) => address,
        None => {
            assert(keys(notes@) + Seq::<Seq<char>>::empty() == keys(notes@));
            return Step::Failed(Error::InvalidPath(text_of(&reference)));
        },
    };
    match inline_import(pass, &address, chain, notes) {
        Step::Done(css) => match condition {
            Some(condition) => {
                let mut text = chars_of("@media ");
                append(&mut text, &condition);
                append(&mut text, &chars_of("{"));
                append(&mut text, &css);
                append(&mut text, &chars_of("}"));
                Step::Done(text)
            },
            None => Step::Done(css),
        },
        Step::Fetch(request) => Step::Fetch(request),
        Step::Failed(error) => Step::Failed(error),
    }
}

/// `s` with each `@import` statement in it inlined.
fn inline_imports(
    pass: &Pass,
    s: &Vec<char>,
    base: &Vec<char>,
    chain: &Vec<Vec<char>>,
    notes: &mut Vec<Vec<char>>,
) -> (step: Step<Vec<char>>)
    ensures
        step@ == imports_from(pass@, s@, 0, base@, keys(chain@)),
        keys(final(notes)@) == keys(old(notes)@) + imports_notes_from(
            pass@,
            s@,
            0,
            base@,
            keys(chain@),
        ),
    decreases unvisited(pass@.slots, keys(chain@)), 2int, s.len() + 1,
{
    let keyword = chars_of("@import");
    let mut out: Vec<char> = Vec::new();
    let mut i: usize = 0;
    let ghost all = imports_notes_from(pass@, s@, 0, base@, keys(chain@));
    assert(Seq::<char>::empty() + imports_from(pass@, s@, 0, base@, keys(chain@))->Done_0
        == imports_from(pass@, s@, 0, base@, keys(chain@))->Done_0);
    while i < s.len()
        invariant
            i <= s.len(),
            keyword@ == "@import"@,
            all == imports_notes_from(pass@, s@, 0, base@, keys(chain@)),
            imports_from(pass@, s@, 0, base@, keys(chain@)) == behind(
                out@,
                imports_from(pass@, s@, i as int, base@, keys(chain@)),
            ),
            keys(old(notes)@) + all == keys(notes@) + imports_notes_from(
                pass@,
                s@,
                i as int,
                base@,
                keys(chain@),
            ),
        decreases s.len() - i,
    {
        let ghost before = keys(notes@);
        match import_from(s, i, &keyword) {
            Some(semicolon) => {
                let body = slice_of(s, i + keyword.len(), semicolon);
                let ghost rest = imports_notes_from(
                    pass@,
                    s@,
                    semicolon + 1,
                    base@,
                    keys(chain@),
                );
                let piece = inline_statement(pass, &body, base, chain, notes);
                proof {
                    let met = import_notes(pass@, body@, base@, keys(chain@));
                    assert((before + met) + rest == before + (met + rest));
                    assert(before + met + Seq::<Seq<char>>::empty() == before + met);
                }
                match piece {
                    Step::Done(css) => {
                        proof {
                            lemma_behind_twice(
                                out@,
                                css@,
                                imports_from(pass@, s@, semicolon + 1, base@, keys(chain@)),
                            );
                        }
                        append(&mut out, &css);
                        i = semicolon + 1;
                    },
                    Step::Fetch(request) => {
                        return Step::Fetch(request);
                    },
                    Step::Failed(error) => {
                        return Step::Failed(error);
                    },
                }
            },
            None => {
                proof {
                    lemma_behind_twice(
                        out@,
                        seq![s@[i as int]],
                        imports_from(pass@, s@, i + 1, base@, keys(chain@)),
                    );
                    assert(out@.push(s@[i as int]) == out@ + seq![s@[i as int]]);
                }
                out.push(s[i]);
                i += 1;
            },
        }
    }
    assert(out@ + Seq::<char>::empty() == out@);
    assert(keys(notes@) + Seq::<Seq<char>>::empty() == keys(notes@));
    Step::Done(out)
}

/// The sheet `css`, inlined. Its references are seen from `base`. `chain`
/// holds the locations of the sheets that are being inlined around it. What
/// the run leaves to note goes to the end of `notes`.
pub(crate) fn inline_sheet(
    pass: &Pass,
    css: &Vec<char>,
    base: &Vec<char>,
    chain: &Vec<Vec<char>>,
    notes: &mut Vec<Vec<char>>,
) -> (step: Step<Vec<char>>)
    ensures
        step@ == sheet(pass@, css@, base@, keys(chain@)),
        keys(final(notes)@) == keys(old(notes)@) + sheet_notes(pass@, css@, base@, keys(chain@)),
    decreases unvisited(pass@.slots, keys(chain@)), 3int, 0int,
{
    let bare = strip_comments(css);
    match inline_imports(pass, &bare, base, chain, notes) {
        Step::Done(joined) => {
            let ghost first = imports_notes_from(pass@, bare@, 0, base@, keys(chain@));
            let ghost second = urls_notes_from(pass@, joined@, 0, base@);
            assert((keys(old(notes)@) + first) + second == keys(old(notes)@) + (first + second));
            match inline_urls(pass, &joined, base, notes) {
                Step::Done(filled) => Step::Done(minify(&filled)),
                other => other,
            }
        },
        other => other,
    }
}

/// The sheet `css` found at `css_path`, inlined, and what that leaves to
/// note.
pub(crate) fn inline_sheet_at(
    cache: &Cache,
    css: &str,
    css_path: &str,
    config: &Config,
    root_path: &str,
    notes: &mut Vec<Vec<char>>,
) -> (step: Step<String>)
    ensures
        step@ == sheet(
            scene_of(cache@, *config, root_path@),
            css@,
            seen_from(css_path@, root_path@),
            Seq::empty(),
        ),
        keys(final(notes)@) == keys(old(notes)@) + sheet_notes(
            scene_of(cache@, *config, root_path@),
            css@,
            seen_from(css_path@, root_path@),
            Seq::empty(),
        ),
{
    let root = chars_of(root_path);
    let path = chars_of(css_path);
    let base = if same_text(&path, &root) {
        root
    } else {
        base_for(&path)
    };
    let root = chars_of(root_path);
    let pass = Pass { cache, config, root: &root };
    let chain: Vec<Vec<char>> = Vec::new();
    assert(keys(chain@) =~= Seq::<Seq<char>>::empty());
    match inline_sheet(&pass, &chars_of(css), &base, &chain, notes) {
        Step::Done(text) => Step::Done(text_of(&text)),
        Step::Fetch(request) => Step::Fetch(request),
        Step::Failed(error) => Step::Failed(error),
    }
}

/// The sheet that the reference `css_path` names, inlined, and what that
/// leaves to note.
pub(crate) fn inline_sheet_behind(
    cache: &Cache,
    css_path: &str,
    config: &Config,
    root_path: &str,
    notes: &mut Vec<Vec<char>>,
) -> (step: Step<Option<String>>)
    ensures
        maybe(step) == sheet_at(scene_of(cache@, *config, root_path@), css_path@),
        keys(final(notes)@) == keys(old(notes)@) + sheet_at_notes(
            scene_of(cache@, *config, root_path@),
            css_path@,
        ),
{
    let root = chars_of(root_path);
    let path = chars_of(css_path);
    let pass = Pass { cache, config, root: &root };
    match cache.look(&path, config, &root, notes) {
        Found::Skipped(_) => Step::Done(None),
        Found::Wanted(request) => Step::Fetch(request),
        Found::Known(at) => match cache.entry(at) {
            Entry::Inlined(css) => {
                let key = cache.key(at);
                let mut chain: Vec<Vec<char>> = Vec::new();
                chain.push(copy_of(key));
                assert(keys(chain@) =~= seq![place(css_path@, *config, root_path@)]);
                assert(keys(notes@) =~= keys(old(notes)@));
                match inline_sheet(&pass, css, &base_for(key), &chain, notes) {
                    Step::Done(text) => Step::Done(Some(text_of(&text))),
                    Step::Fetch(request) => Step::Fetch(request),
                    Step::Failed(error) => Step::Failed(error),
                }
            },
            _ => Step::Done(None),
        },
    }
}

/// The sheet `css`, inlined. `css_path` is where the sheet was found: the
/// sheet's own URL or file, or for a sheet that is part of the document the
/// directory of the document, `root_path`. The addresses that the run found
/// left out before any fetch are noted in the cache as left out; nothing
/// else in the cache changes.
pub fn inline_css(
    cache: &mut Cache,
    css: &str,
    css_path: &str,
    config: &Config,
    root_path: &str,
) -> (step: Step<String>)
    ensures
        step@ == sheet(
            scene_of(old(cache)@, *config, root_path@),
            css@,
            seen_from(css_path@, root_path@),
            Seq::empty(),
        ),
        final(cache)@ == noted_all(
            old(cache)@,
            sheet_notes(
                scene_of(old(cache)@, *config, root_path@),
                css@,
                seen_from(css_path@, root_path@),
                Seq::empty(),
            ),
        ),
{
    let mut notes: Vec<Vec<char>> = Vec::new();
    let step = inline_sheet_at(cache, css, css_path, config, root_path, &mut notes);
    assert(keys(notes@) =~= sheet_notes(
        scene_of(cache@, *config, root_path@),
        css@,
        seen_from(css_path@, root_path@),
        Seq::empty(),
    ));
    cache.note_all(&notes);
    step
}

/// The sheet that the reference `css_path` names, inlined; `None` where
/// nothing is inlined for `css_path`. The addresses that the run found left
/// out before any fetch are noted in the cache as left out; nothing else in
/// the cache changes.
pub fn inline_css_path(
    cache: &mut Cache,
    css_path: &str,
    config: &Config,
    root_path: &str,
) -> (step: Step<Option<String>>)
    ensures
        maybe(step) == sheet_at(scene_of(old(cache)@, *config, root_path@), css_path@),
        final(cache)@ == noted_all(
            old(cache)@,
            sheet_at_notes(scene_of(old(cache)@, *config, root_path@), css_path@),
        ),
{
    let mut notes: Vec<Vec<char>> = Vec::new();
    let step = inline_sheet_behind(cache, css_path, config, root_path, &mut notes);
    assert(keys(notes@) =~= sheet_at_notes(
        scene_of(cache@, *config, root_path@),
        css_path@,
    ));
    cache.note_all(&notes);
    step
}

} // verus!
