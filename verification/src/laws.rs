//! What holds of every pass, whatever the document and whatever was
//! fetched.

use vstd::prelude::*;
use crate::address::{absolute_url, base_of, extension, is_data, normalized, resolved};
use crate::cache::{
    cached, excluded, inlined, lemma_stored, lemma_unvisited_less, lookup, noted, noted_all,
    place, resolution, settled, stored,
    unvisited, EntryView, FetchedView, LookupView, Resolution, SlotView,
};
use crate::config::{is_font, Config};
use crate::css::{
    import_value, imported, imports_from, sheet, urls_from, within, within_place,
};
use crate::document::{
    attribute, edit_for, edits_to, media_attribute, media_edit, pass_edits, round_edits,
    style_edit,
    AttributeView, EditView, ElementView, Round,
};
use crate::encode::{base64_text, data_uri, encoded, lemma_data_uri_parts, lossy_text};
use crate::mime::{content_type, MimeLine};
use crate::scan::{
    comment_end, import_at, import_condition, import_reference, uncommented,
    uncommented_from, url_at, wrapped,
};
use crate::minify::{
    cleared, cleared_from, closed, kept, minified, rest_end, squeezed, squeezed_to, Gap,
};
use crate::shapes::import_shape;
use crate::step::{scene_of, Outcome, Scene};
use crate::text::occurs_at;

verus! {

/// The outcome of an element that is settled and gets no edit.
pub open spec fn no_edit() -> Outcome<Option<EditView>> {
    Outcome::Done(None)
}

/// Whether the reference `path` is a URL: whether its address is an
/// absolute URL.
pub open spec fn is_remote(path: Seq<char>) -> bool {
    absolute_url(normalized(path)) is Some
}

/// What came of a fetch that brought `bytes`, and the content type `named`
/// where the server named one.
pub open spec fn came(bytes: Seq<u8>, named: Option<Seq<char>>) -> FetchedView {
    FetchedView::Content { bytes, content_type: named }
}

/// `element` with `text` inside it.
pub open spec fn with_text(element: ElementView, text: Seq<char>) -> ElementView {
    ElementView { tag: element.tag, attributes: element.attributes, text }
}

/// One fetch for one address. Where a reference has to be fetched, the
/// cache holds nothing for its location yet. Once an outcome is recorded
/// under the location, every reference to the same address, whatever its
/// query and fragment, is answered from the cache: nothing is asked for it
/// again.
pub proof fn fetched_once(
    slots: Seq<SlotView>,
    path: Seq<char>,
    again: Seq<char>,
    config: Config,
    root: Seq<char>,
    entry: EntryView,
)
    requires
        normalized(path) == normalized(again),
        lookup(slots, path, config, root) is Fetch,
    ensures
        lookup(slots, path, config, root)->Fetch_0.location == place(path, config, root),
        cached(slots, place(path, config, root)) is None,
        resolution(stored(slots, place(path, config, root), entry), again, config, root)
            == Resolution::Known(entry),
        lookup(stored(slots, place(path, config, root), entry), again, config, root)
            == LookupView::Value(inlined(entry)),
{
    lemma_stored(slots, place(path, config, root), entry, place(path, config, root));
}

/// Recording an outcome changes nothing for a reference to any other
/// location.
pub proof fn others_stay(
    slots: Seq<SlotView>,
    location: Seq<char>,
    entry: EntryView,
    path: Seq<char>,
    config: Config,
    root: Seq<char>,
)
    requires
        place(path, config, root) != location,
    ensures
        resolution(stored(slots, location, entry), path, config, root) == resolution(
            slots,
            path,
            config,
            root,
        ),
{
    lemma_stored(slots, location, entry, place(path, config, root));
}

/// A resource whose extension the table lists is inlined as
/// `data:<content type>;base64,<payload>`, where the payload is the base64
/// text of its bytes and ends the value.
pub proof fn listed_is_data_uri(bytes: Seq<u8>, address: Seq<char>, table: Seq<MimeLine>)
    requires
        content_type(table, extension(address)) is Some,
    ensures
        encoded(bytes, address, table) == data_uri(
            content_type(table, extension(address))->0,
            base64_text(bytes),
        ),
        is_data(encoded(bytes, address, table)),
        encoded(bytes, address, table).skip(
            13 + content_type(table, extension(address))->0.len() as int,
        ) == base64_text(bytes),
{
    lemma_data_uri_parts(content_type(table, extension(address))->0, base64_text(bytes));
}

/// A resource whose extension the table does not list is inlined as its
/// bytes read as UTF-8, with nothing in front.
pub proof fn unlisted_is_text(bytes: Seq<u8>, address: Seq<char>, table: Seq<MimeLine>)
    requires
        content_type(table, extension(address)) is None,
    ensures
        encoded(bytes, address, table) == lossy_text(bytes),
{
}

/// What is longer than `max_inline_size` is left out, whatever else holds
/// of it.
pub proof fn too_large_is_left_out(
    address: Seq<char>,
    bytes: Seq<u8>,
    named: Option<Seq<char>>,
    config: Config,
    table: Seq<MimeLine>,
)
    requires
        bytes.len() > config.max_inline_size,
    ensures
        settled(address, came(bytes, named), config, table) == EntryView::Excluded,
{
}

/// What is not longer than `max_inline_size` and came without a content
/// type, or with the one that the table gives its extension, is inlined.
pub proof fn what_fits_is_inlined(
    address: Seq<char>,
    bytes: Seq<u8>,
    named: Option<Seq<char>>,
    config: Config,
    table: Seq<MimeLine>,
)
    requires
        bytes.len() <= config.max_inline_size,
        named is None || content_type(table, extension(address)) is None || named
            == content_type(table, extension(address)),
    ensures
        settled(address, came(bytes, named), config, table) == EntryView::Inlined(
            encoded(bytes, address, table),
        ),
{
}

/// The reference in the attribute that an element of the first round names
/// its resource in.
pub open spec fn media_source(element: ElementView) -> Seq<char> {
    attribute(element.attributes, media_attribute(element)->0)->0
}

/// An image, video or icon whose resource was left out or could not be
/// fetched keeps its `src` or `href`: the first round has no edit for it.
pub proof fn left_out_stays(
    slots: Seq<SlotView>,
    config: Config,
    root: Seq<char>,
    element: ElementView,
    index: int,
)
    requires
        media_attribute(element) is Some,
        attribute(element.attributes, media_attribute(element)->0) is Some,
        cached(slots, place(media_source(element), config, root)) is Some,
        inlined(cached(slots, place(media_source(element), config, root))->0) is None,
    ensures
        media_edit(scene_of(slots, config, root), element, index) == no_edit(),
{
}

/// An image, video or icon whose resource turned out longer than
/// `max_inline_size` keeps its `src` or `href`.
pub proof fn too_large_stays(
    slots: Seq<SlotView>,
    config: Config,
    root: Seq<char>,
    table: Seq<MimeLine>,
    element: ElementView,
    index: int,
    bytes: Seq<u8>,
    named: Option<Seq<char>>,
)
    requires
        media_attribute(element) is Some,
        attribute(element.attributes, media_attribute(element)->0) is Some,
        bytes.len() > config.max_inline_size,
    ensures
        media_edit(
            scene_of(
                stored(
                    slots,
                    place(media_source(element), config, root),
                    settled(
                        place(media_source(element), config, root),
                        came(bytes, named),
                        config,
                        table,
                    ),
                ),
                config,
                root,
            ),
            element,
            index,
        ) == no_edit(),
{
    let location = place(media_source(element), config, root);
    lemma_stored(slots, location, EntryView::Excluded, location);
}

/// With `inline_remote` off nothing is inlined and nothing is asked for a
/// reference that is a URL, whatever the cache holds.
pub proof fn remote_off(slots: Seq<SlotView>, path: Seq<char>, config: Config, root: Seq<char>)
    requires
        !config.inline_remote,
        is_remote(path),
    ensures
        lookup(slots, path, config, root) == LookupView::Value(None),
{
}

/// With `inline_fonts` off nothing is inlined and nothing is asked for a
/// reference to a font, whatever the cache holds.
pub proof fn fonts_off(slots: Seq<SlotView>, path: Seq<char>, config: Config, root: Seq<char>)
    requires
        !config.inline_fonts,
        is_font(normalized(path)),
    ensures
        lookup(slots, path, config, root) == LookupView::Value(None),
{
}

/// With `inline_remote` off an element keeps a `src` or `href` that is a
/// URL: the first round has no edit for an image, video or icon with one,
/// and the second has none for a `script` or a `link` with one.
pub proof fn remote_off_stays(
    slots: Seq<SlotView>,
    config: Config,
    root: Seq<char>,
    element: ElementView,
    index: int,
)
    requires
        !config.inline_remote,
    ensures
        media_attribute(element) is Some && attribute(
            element.attributes,
            media_attribute(element)->0,
        ) is Some && is_remote(media_source(element)) ==> media_edit(
            scene_of(slots, config, root),
            element,
            index,
        ) == no_edit(),
        element.tag == "script"@ && attribute(element.attributes, "src"@) is Some && is_remote(
            attribute(element.attributes, "src"@)->0,
        ) ==> style_edit(scene_of(slots, config, root), element, index) == no_edit(),
        element.tag == "link"@ && attribute(element.attributes, "href"@) is Some && is_remote(
            attribute(element.attributes, "href"@)->0,
        ) ==> style_edit(scene_of(slots, config, root), element, index) == no_edit(),
{
    reveal_strlit("script");
    reveal_strlit("style");
    reveal_strlit("link");
    assert("link"@ != "script"@) by {
        assert("link"@[0] == 'l' && "script"@[0] == 's');
    }
    assert("link"@ != "style"@) by {
        assert("link"@[0] == 'l' && "style"@[0] == 's');
    }
}

/// Whether an outcome asks for nothing that the cache holds.
pub open spec fn asks_new<T>(slots: Seq<SlotView>, outcome: Outcome<T>) -> bool {
    outcome is Fetch ==> cached(slots, outcome->Fetch_0.location) is None
}

/// What is recorded stays: later records take no address out of the cache.
pub proof fn recorded_stays(
    slots: Seq<SlotView>,
    key: Seq<char>,
    entry: EntryView,
    other: Seq<char>,
)
    requires
        cached(slots, other) is Some,
    ensures
        cached(stored(slots, key, entry), other) is Some,
{
    lemma_stored(slots, key, entry, other);
}

proof fn lemma_urls_ask_new(scene: Scene, s: Seq<char>, i: int, base: Seq<char>)
    ensures
        asks_new(scene.slots, urls_from(scene, s, i, base)),
    decreases s.len() - i,
{
    if !(i < 0 || i >= s.len()) {
        match url_at(s, i) {
            Some(found) if i < found.end <= s.len() => {
                lemma_urls_ask_new(scene, s, found.end, base);
            },
            _ => {
                lemma_urls_ask_new(scene, s, i + 1, base);
            },
        }
    }
}

proof fn lemma_imported_asks_new(scene: Scene, address: Seq<char>, chain: Seq<Seq<char>>)
    ensures
        asks_new(scene.slots, imported(scene, address, chain)),
    decreases unvisited(scene.slots, chain), 0int, 0int,
{
    let key = within_place(scene, address);
    match within(scene, address) {
        Resolution::Known(EntryView::Inlined(css)) => {
            if !chain.contains(key) {
                lemma_unvisited_less(scene.slots, chain, key);
                lemma_sheet_asks_new(scene, css, base_of(key), chain.push(key));
            }
        },
        _ => {},
    }
}

proof fn lemma_import_asks_new(
    scene: Scene,
    body: Seq<char>,
    base: Seq<char>,
    chain: Seq<Seq<char>>,
)
    ensures
        asks_new(scene.slots, import_value(scene, body, base, chain)),
    decreases unvisited(scene.slots, chain), 1int, 0int,
{
    match resolved(import_reference(body), base) {
        Some(address) => {
            lemma_imported_asks_new(scene, address, chain);
        },
        None => {},
    }
}

proof fn lemma_imports_ask_new(
    scene: Scene,
    s: Seq<char>,
    i: int,
    base: Seq<char>,
    chain: Seq<Seq<char>>,
)
    ensures
        asks_new(scene.slots, imports_from(scene, s, i, base, chain)),
    decreases unvisited(scene.slots, chain), 2int, s.len() - i,
{
    if !(i < 0 || i >= s.len()) {
        match import_at(s, i) {
            Some(semicolon) if i <= semicolon < s.len() => {
                let body = s.subrange(i + "@import"@.len(), semicolon);
                lemma_import_asks_new(scene, body, base, chain);
                lemma_imports_ask_new(scene, s, semicolon + 1, base, chain);
            },
            _ => {
                lemma_imports_ask_new(scene, s, i + 1, base, chain);
            },
        }
    }
}

proof fn lemma_sheet_asks_new(scene: Scene, css: Seq<char>, base: Seq<char>, chain: Seq<Seq<char>>)
    ensures
        asks_new(scene.slots, sheet(scene, css, base, chain)),
    decreases unvisited(scene.slots, chain), 3int, 0int,
{
    lemma_imports_ask_new(scene, uncommented(css), 0, base, chain);
    match imports_from(scene, uncommented(css), 0, base, chain) {
        Outcome::Done(joined) => {
            lemma_urls_ask_new(scene, joined, 0, base);
        },
        _ => {},
    }
}

proof fn lemma_round_asks_new(round: Round, scene: Scene, document: Seq<ElementView>, n: int)
    ensures
        asks_new(scene.slots, edits_to(round, scene, document, n)),
    decreases n,
{
    if n > 0 {
        lemma_round_asks_new(round, scene, document, n - 1);
        let element = document[n - 1];
        lemma_sheet_asks_new(scene, element.text, scene.root, Seq::empty());
        let href = attribute(element.attributes, "href"@);
        if href is Some {
            lemma_sheet_asks_new(
                scene,
                lookup(scene.slots, href->0, scene.config, scene.root)->Value_0->0,
                base_of(place(href->0, scene.config, scene.root)),
                seq![place(href->0, scene.config, scene.root)],
            );
        }
        let style = attribute(element.attributes, "style"@);
        if style is Some {
            lemma_sheet_asks_new(scene, style->0, scene.root, Seq::empty());
        }
    }
}

/// A sheet asks for nothing that the cache holds.
pub proof fn sheet_asks_new(scene: Scene, css: Seq<char>, base: Seq<char>)
    ensures
        asks_new(scene.slots, sheet(scene, css, base, Seq::empty())),
{
    lemma_sheet_asks_new(scene, css, base, Seq::empty());
}

/// A pass asks for nothing that the cache holds. Since what is recorded
/// stays in the cache, a caller that records the outcome of each request
/// before it runs the pass again fetches no address twice.
pub proof fn pass_asks_new(scene: Scene, document: Seq<ElementView>)
    ensures
        asks_new(scene.slots, pass_edits(scene, document)),
        asks_new(scene.slots, round_edits(Round::Media, scene, document)),
        asks_new(scene.slots, round_edits(Round::Styles, scene, document)),
{
    lemma_round_asks_new(Round::Media, scene, document, document.len() as int);
    lemma_round_asks_new(Round::Styles, scene, document, document.len() as int);
}

/// The attributes once the one named `name` has `value`: in the place of
/// the first of that name, or at the end where there is none.
pub open spec fn with_value(attributes: Seq<AttributeView>, name: Seq<char>, value: Seq<char>)
    -> Seq<AttributeView>
    decreases attributes.len(),
{
    if attributes.len() == 0 {
        seq![AttributeView { name, value }]
    } else if attributes[0].name == name {
        seq![AttributeView { name, value }] + attributes.skip(1)
    } else {
        seq![attributes[0]] + with_value(attributes.skip(1), name, value)
    }
}

/// `element` once its attribute `name` has `value`.
pub open spec fn with_attribute(element: ElementView, name: Seq<char>, value: Seq<char>)
    -> ElementView {
    ElementView {
        tag: element.tag,
        attributes: with_value(element.attributes, name, value),
        text: element.text,
    }
}

/// Setting one attribute changes the value of no other.
pub proof fn lemma_with_value(
    attributes: Seq<AttributeView>,
    name: Seq<char>,
    value: Seq<char>,
    other: Seq<char>,
)
    ensures
        attribute(with_value(attributes, name, value), name) == Some(value),
        other != name ==> attribute(with_value(attributes, name, value), other) == attribute(
            attributes,
            other,
        ),
    decreases attributes.len(),
{
    let after = with_value(attributes, name, value);
    assert(after.len() > 0 && after[0].name == if attributes.len() > 0 && attributes[0].name
        != name {
        attributes[0].name
    } else {
        name
    });
    if attributes.len() == 0 {
        assert(after.skip(1).len() == 0);
        assert(attribute(after.skip(1), other) is None);
    } else if attributes[0].name == name {
        assert(after.skip(1) == attributes.skip(1));
    } else {
        lemma_with_value(attributes.skip(1), name, value, other);
        assert(after.skip(1) == with_value(attributes.skip(1), name, value));
    }
}

/// The second round reads nothing that the first one writes: an element
/// whose `src` or `href` the first round has set gets from the second round
/// the edit that it would have got before.
pub proof fn rounds_are_apart(scene: Scene, element: ElementView, index: int, value: Seq<char>)
    requires
        media_attribute(element) is Some,
    ensures
        style_edit(scene, with_attribute(element, media_attribute(element)->0, value), index)
            == style_edit(scene, element, index),
{
    let name = media_attribute(element)->0;
    reveal_strlit("video");
    reveal_strlit("img");
    reveal_strlit("link");
    reveal_strlit("script");
    reveal_strlit("style");
    reveal_strlit("src");
    reveal_strlit("rel");
    reveal_strlit("href");
    reveal_strlit("stylesheet");
    reveal_strlit("icon");
    reveal_strlit("shortcut icon");
    reveal_strlit("apple-touch-icon");
    reveal_strlit("apple-touch-startup-image");
    assert("video"@.len() == 5 && "img"@.len() == 3 && "link"@.len() == 4 && "script"@.len() == 6);
    assert("style"@[0] == 's' && "video"@[0] == 'v');
    assert("src"@.len() == 3 && "href"@.len() == 4 && "style"@.len() == 5);
    assert("rel"@[0] == 'r' && "src"@[0] == 's');
    assert("stylesheet"@.len() == 10 && "icon"@.len() == 4 && "shortcut icon"@.len() == 13
        && "apple-touch-icon"@.len() == 16 && "apple-touch-startup-image"@.len() == 25);
    lemma_with_value(element.attributes, name, value, "src"@);
    lemma_with_value(element.attributes, name, value, "rel"@);
    lemma_with_value(element.attributes, name, value, "href"@);
    lemma_with_value(element.attributes, name, value, "style"@);
}

/// The text inside an element counts for a `style` alone: with any other
/// text in it, any other element gets the same edits in both rounds.
pub proof fn text_counts_in_style_alone(
    scene: Scene,
    element: ElementView,
    index: int,
    text: Seq<char>,
)
    requires
        element.tag != "style"@,
    ensures
        media_edit(scene, with_text(element, text), index) == media_edit(scene, element, index),
        style_edit(scene, with_text(element, text), index) == style_edit(scene, element, index),
{
}

/// Whether `pat` stands nowhere in `s`.
pub open spec fn lacks(s: Seq<char>, pat: Seq<char>) -> bool {
    forall|i: int| 0 <= i < s.len() ==> !occurs_at(s, i, pat)
}

proof fn lemma_no_import(scene: Scene, s: Seq<char>, i: int, base: Seq<char>, chain: Seq<Seq<char>>)
    requires
        lacks(s, "@import"@),
        0 <= i <= s.len(),
    ensures
        imports_from(scene, s, i, base, chain) == Outcome::Done(s.skip(i)),
    decreases s.len() - i,
{
    if i < s.len() {
        lemma_no_import(scene, s, i + 1, base, chain);
        assert(!occurs_at(s, i, "@import"@));
        assert(s.skip(i) == seq![s[i]] + s.skip(i + 1));
    } else {
        assert(s.skip(i) == Seq::<char>::empty());
    }
}

proof fn lemma_no_url(scene: Scene, s: Seq<char>, i: int, base: Seq<char>)
    requires
        lacks(s, "url"@),
        0 <= i <= s.len(),
    ensures
        urls_from(scene, s, i, base) == Outcome::Done(s.skip(i)),
    decreases s.len() - i,
{
    if i < s.len() {
        lemma_no_url(scene, s, i + 1, base);
        assert(!occurs_at(s, i, "url"@));
        assert(s.skip(i) == seq![s[i]] + s.skip(i + 1));
    } else {
        assert(s.skip(i) == Seq::<char>::empty());
    }
}

/// A sheet that, its comments apart, holds neither `@import` nor `url` comes
/// out as its text without the comments, minified: nothing is fetched for
/// it, and it cannot fail.
pub proof fn plain_sheet(scene: Scene, css: Seq<char>, base: Seq<char>, chain: Seq<Seq<char>>)
    requires
        lacks(uncommented(css), "@import"@),
        lacks(uncommented(css), "url"@),
    ensures
        sheet(scene, css, base, chain) == Outcome::Done(minified(uncommented(css))),
{
    let bare = uncommented(css);
    lemma_no_import(scene, bare, 0, base, chain);
    lemma_no_url(scene, bare, 0, base);
    assert(bare.skip(0) == bare);
}

/// An `@import` statement that names a plain sheet gives way to that sheet
/// without its comments, minified, and under `@media` with the statement's
/// condition, as it is written, where it has one.
pub proof fn import_of_plain_sheet(
    scene: Scene,
    body: Seq<char>,
    base: Seq<char>,
    chain: Seq<Seq<char>>,
    css: Seq<char>,
)
    requires
        resolved(import_reference(body), base) is Some,
        within(scene, resolved(import_reference(body), base)->0) == Resolution::Known(
            EntryView::Inlined(css),
        ),
        !chain.contains(within_place(scene, resolved(import_reference(body), base)->0)),
        lacks(uncommented(css), "@import"@),
        lacks(uncommented(css), "url"@),
    ensures
        import_value(scene, body, base, chain) == Outcome::Done(
            wrapped(import_condition(body), minified(uncommented(css))),
        ),
{
    let key = within_place(scene, resolved(import_reference(body), base)->0);
    plain_sheet(scene, css, base_of(key), chain.push(key));
}

/// The index of the element that an edit changes.
pub open spec fn target(edit: EditView) -> int {
    match edit {
        EditView::SetAttribute { element, .. } => element,
        EditView::Replace { element, .. } => element,
    }
}

/// Whether `edit` is what a round gives the element of `document` that it
/// names, and that element is one of the first `n`.
pub open spec fn is_own(
    round: Round,
    scene: Scene,
    document: Seq<ElementView>,
    n: int,
    edit: EditView,
) -> bool {
    0 <= target(edit) < n && edit_for(round, scene, document[target(edit)], target(edit))
        == Outcome::Done(Some(edit))
}

/// The edit that a round gives an element names that element.
pub proof fn edit_names_its_element(round: Round, scene: Scene, element: ElementView, index: int)
    requires
        edit_for(round, scene, element, index) is Done,
        edit_for(round, scene, element, index)->Done_0 is Some,
    ensures
        target(edit_for(round, scene, element, index)->Done_0->0) == index,
{
}

/// Every edit of a round is the own edit of the element that it names, and
/// that element is one of the document: the edit's index lies below the
/// document's length.
pub proof fn edits_are_own(
    round: Round,
    scene: Scene,
    document: Seq<ElementView>,
    n: int,
    j: int,
)
    requires
        0 <= n <= document.len(),
        edits_to(round, scene, document, n) is Done,
        0 <= j < edits_to(round, scene, document, n)->Done_0.len(),
    ensures
        is_own(round, scene, document, n, edits_to(round, scene, document, n)->Done_0[j]),
    decreases n,
{
    if n > 0 {
        let before = edits_to(round, scene, document, n - 1)->Done_0;
        if j < before.len() {
            edits_are_own(round, scene, document, n - 1, j);
        } else {
            edit_names_its_element(round, scene, document[n - 1], n - 1);
        }
    }
}

/// An element that a round gives no edit has no edit in the round's list.
pub proof fn unedited_has_no_edit(
    round: Round,
    scene: Scene,
    document: Seq<ElementView>,
    i: int,
    j: int,
)
    requires
        round_edits(round, scene, document) is Done,
        0 <= i < document.len(),
        edit_for(round, scene, document[i], i) == no_edit(),
        0 <= j < round_edits(round, scene, document)->Done_0.len(),
    ensures
        target(round_edits(round, scene, document)->Done_0[j]) != i,
{
    edits_are_own(round, scene, document, document.len() as int, j);
}

/// The edits of a round come in the order of the elements that they name,
/// and no element has two.
pub proof fn edits_are_in_order(
    round: Round,
    scene: Scene,
    document: Seq<ElementView>,
    n: int,
    j: int,
    k: int,
)
    requires
        0 <= n <= document.len(),
        edits_to(round, scene, document, n) is Done,
        0 <= j < k < edits_to(round, scene, document, n)->Done_0.len(),
    ensures
        target(edits_to(round, scene, document, n)->Done_0[j]) < target(
            edits_to(round, scene, document, n)->Done_0[k],
        ),
    decreases n,
{
    if n > 0 {
        let before = edits_to(round, scene, document, n - 1)->Done_0;
        if k < before.len() {
            edits_are_in_order(round, scene, document, n - 1, j, k);
        } else {
            edits_are_own(round, scene, document, n - 1, j);
            edit_names_its_element(round, scene, document[n - 1], n - 1);
        }
    }
}

/// Every edit of a pass is the own edit, in one of the two rounds, of the
/// element that it names, and its index lies below the document's length.
pub proof fn pass_edits_are_own(scene: Scene, document: Seq<ElementView>, j: int)
    requires
        pass_edits(scene, document) is Done,
        0 <= j < pass_edits(scene, document)->Done_0.len(),
    ensures
        is_own(
            Round::Media,
            scene,
            document,
            document.len() as int,
            pass_edits(scene, document)->Done_0[j],
        ) || is_own(
            Round::Styles,
            scene,
            document,
            document.len() as int,
            pass_edits(scene, document)->Done_0[j],
        ),
{
    let first = round_edits(Round::Media, scene, document)->Done_0;
    if j < first.len() {
        edits_are_own(Round::Media, scene, document, document.len() as int, j);
    } else {
        edits_are_own(Round::Styles, scene, document, document.len() as int, j - first.len());
    }
}

/// Noting an address as left out takes nothing out of the cache and
/// changes no entry: what the cache held for any address, it holds after.
/// For the address itself it holds something after.
pub proof fn noted_keeps(slots: Seq<SlotView>, key: Seq<char>, other: Seq<char>)
    ensures
        cached(slots, other) is Some ==> cached(noted(slots, key), other) == cached(slots, other),
        other != key ==> cached(noted(slots, key), other) == cached(slots, other),
        cached(noted(slots, key), key) is Some,
        cached(slots, key) is None ==> cached(noted(slots, key), key) == Some(
            EntryView::Excluded,
        ),
{
    if cached(slots, key) is None {
        lemma_stored(slots, key, EntryView::Excluded, other);
        assert(noted(slots, key) == stored(slots, key, EntryView::Excluded));
    }
}

/// Noting addresses as left out changes no entry that the cache held.
pub proof fn noted_all_keeps(slots: Seq<SlotView>, keys: Seq<Seq<char>>, other: Seq<char>)
    requires
        cached(slots, other) is Some,
    ensures
        cached(noted_all(slots, keys), other) == cached(slots, other),
    decreases keys.len(),
{
    if keys.len() > 0 {
        noted_all_keeps(slots, keys.drop_last(), other);
        noted_keeps(noted_all(slots, keys.drop_last()), keys.last(), other);
    }
}

/// A reference that is left out before any fetch is answered the same
/// after its address is noted: nothing is inlined for it, and nothing is
/// asked for it.
pub proof fn noted_stays_out(
    slots: Seq<SlotView>,
    path: Seq<char>,
    again: Seq<char>,
    config: Config,
    root: Seq<char>,
)
    requires
        excluded(path, config, root) is Some,
        normalized(again) == normalized(path),
    ensures
        lookup(slots, again, config, root) == LookupView::Value(None),
        lookup(noted(slots, normalized(path)), again, config, root) == LookupView::Value(None),
{
}

/// Whether the element names a resource by URL in the `src` or `href` that
/// the round reads: in the first round an image, video or icon, in the
/// second a `script` or a `link`.
pub open spec fn names_url(round: Round, element: ElementView) -> bool {
    match round {
        Round::Media => media_attribute(element) is Some && attribute(
            element.attributes,
            media_attribute(element)->0,
        ) is Some && is_remote(media_source(element)),
        Round::Styles => (element.tag == "script"@ && attribute(element.attributes, "src"@)
            is Some && is_remote(attribute(element.attributes, "src"@)->0)) || (element.tag
            == "link"@ && attribute(element.attributes, "href"@) is Some && is_remote(
            attribute(element.attributes, "href"@)->0,
        )),
    }
}

/// With `inline_remote` off no edit of the first round names an image,
/// video or icon whose `src` or `href` is a URL, and no edit of the second
/// round names a `script` or a `link` with one: in what a pass hands back,
/// every such `src` and `href` stays as it is.
pub proof fn remote_off_in_the_list(
    round: Round,
    slots: Seq<SlotView>,
    config: Config,
    root: Seq<char>,
    document: Seq<ElementView>,
    i: int,
    j: int,
)
    requires
        !config.inline_remote,
        0 <= i < document.len(),
        round_edits(round, scene_of(slots, config, root), document) is Done,
        0 <= j < round_edits(round, scene_of(slots, config, root), document)->Done_0.len(),
        names_url(round, document[i]),
    ensures
        target(round_edits(round, scene_of(slots, config, root), document)->Done_0[j]) != i,
{
    remote_off_stays(slots, config, root, document[i], i);
    unedited_has_no_edit(round, scene_of(slots, config, root), document, i, j);
}

/// No edit of the first round names an image, video or icon whose resource
/// the cache holds as left out or as failed: what is too large, what came
/// with the wrong content type and what could not be fetched keeps its
/// `src` or `href` in what a pass hands back.
pub proof fn left_out_in_the_list(
    slots: Seq<SlotView>,
    config: Config,
    root: Seq<char>,
    document: Seq<ElementView>,
    i: int,
    j: int,
)
    requires
        0 <= i < document.len(),
        media_attribute(document[i]) is Some,
        attribute(document[i].attributes, media_attribute(document[i])->0) is Some,
        cached(slots, place(media_source(document[i]), config, root)) is Some,
        inlined(cached(slots, place(media_source(document[i]), config, root))->0) is None,
        round_edits(Round::Media, scene_of(slots, config, root), document) is Done,
        0 <= j < round_edits(Round::Media, scene_of(slots, config, root), document)->Done_0.len(),
    ensures
        target(round_edits(Round::Media, scene_of(slots, config, root), document)->Done_0[j])
            != i,
{
    left_out_stays(slots, config, root, document[i], i);
    unedited_has_no_edit(Round::Media, scene_of(slots, config, root), document, i, j);
}

/// Whether `c` stands nowhere in `s`.
pub open spec fn free(s: Seq<char>, c: char) -> bool {
    forall|k: int| 0 <= k < s.len() ==> #[trigger] s[k] != c
}

proof fn lemma_squeezed_free(s: Seq<char>, n: int, c: char)
    requires
        free(s, c),
        c != ' ',
        0 <= n <= s.len(),
    ensures
        free(squeezed_to(s, n), c),
    decreases n,
{
    if n > 0 {
        lemma_squeezed_free(s, n - 1, c);
    }
}

proof fn lemma_kept_free(gap: Gap, s: Seq<char>, n: int, c: char)
    requires
        free(s, c),
        0 <= n <= s.len(),
    ensures
        free(kept(gap, s, n), c),
    decreases n,
{
    if n > 0 {
        lemma_kept_free(gap, s, n - 1, c);
    }
}

proof fn lemma_cleared_free(s: Seq<char>, i: int, c: char)
    requires
        free(s, c),
    ensures
        free(cleared_from(s, i), c),
    decreases s.len() - i,
{
    if !(i < 0 || i >= s.len()) {
        match rest_end(s, i) {
            Some(end) if end > i => {
                lemma_cleared_free(s, end, c);
            },
            _ => {
                lemma_cleared_free(s, i + 1, c);
            },
        }
    }
}

/// Minifying puts no character into a text but the space: a character
/// other than the space that the text does not hold is not in the result.
pub proof fn minified_is_free(css: Seq<char>, c: char)
    requires
        free(css, c),
        c != ' ',
    ensures
        free(minified(css), c),
{
    let a = squeezed(css);
    lemma_squeezed_free(css, css.len() as int, c);
    let b = closed(Gap::AfterColon, a);
    lemma_kept_free(Gap::AfterColon, a, a.len() as int, c);
    let d0 = cleared(b);
    lemma_cleared_free(b, 0, c);
    let d = closed(Gap::BeforeClose, d0);
    lemma_kept_free(Gap::BeforeClose, d0, d0.len() as int, c);
    let e = closed(Gap::AfterOpen, d);
    lemma_kept_free(Gap::AfterOpen, d, d.len() as int, c);
    let f = closed(Gap::AfterSemicolon, e);
    lemma_kept_free(Gap::AfterSemicolon, e, e.len() as int, c);
    lemma_kept_free(Gap::LineFeed, f, f.len() as int, c);
}

/// Whether every `@` in `s` begins an `@import` statement.
pub open spec fn every_at_imports(s: Seq<char>) -> bool {
    forall|i: int| 0 <= i < s.len() && s[i] == '@' ==> #[trigger] import_at(s, i) is Some
}

/// What the `@import` statement that begins at index `i` of `s` says
/// between `@import` and `;`.
pub open spec fn import_body(s: Seq<char>, i: int) -> Seq<char> {
    s.subrange(i + "@import"@.len(), import_at(s, i)->0)
}

/// Whether each `@import` statement in `s` gives way to a text without
/// `@`.
pub open spec fn imports_bring_no_at(
    scene: Scene,
    s: Seq<char>,
    base: Seq<char>,
    chain: Seq<Seq<char>>,
) -> bool {
    forall|i: int|
        0 <= i < s.len() && #[trigger] import_at(s, i) is Some ==> import_value(
            scene,
            import_body(s, i),
            base,
            chain,
        ) is Done && free(import_value(scene, import_body(s, i), base, chain)->Done_0, '@')
}

proof fn lemma_imports_free(
    scene: Scene,
    s: Seq<char>,
    i: int,
    base: Seq<char>,
    chain: Seq<Seq<char>>,
)
    requires
        every_at_imports(s),
        imports_bring_no_at(scene, s, base, chain),
        0 <= i <= s.len(),
    ensures
        imports_from(scene, s, i, base, chain) is Done,
        free(imports_from(scene, s, i, base, chain)->Done_0, '@'),
    decreases s.len() - i,
{
    if i < s.len() {
        if import_at(s, i) is Some {
            import_shape(s, i);
            lemma_imports_free(scene, s, import_at(s, i)->0 + 1, base, chain);
        } else {
            lemma_imports_free(scene, s, i + 1, base, chain);
        }
    }
}

/// No `@import` is left. Where every `@` of a sheet begins an `@import`
/// statement, each statement gives way to a text without `@` (a statement
/// without a condition that names a sheet without `@` does), and nothing
/// reads `url` once the statements are gone, the inlined sheet holds no `@`
/// at all: every statement has given way to what it names.
pub proof fn no_import_is_left(scene: Scene, css: Seq<char>, base: Seq<char>, chain: Seq<Seq<char>>)
    requires
        every_at_imports(uncommented(css)),
        imports_bring_no_at(scene, uncommented(css), base, chain),
        lacks(imports_from(scene, uncommented(css), 0, base, chain)->Done_0, "url"@),
    ensures
        sheet(scene, css, base, chain) is Done,
        free(sheet(scene, css, base, chain)->Done_0, '@'),
        lacks(sheet(scene, css, base, chain)->Done_0, "@import"@),
{
    let bare = uncommented(css);
    lemma_imports_free(scene, bare, 0, base, chain);
    let joined = imports_from(scene, bare, 0, base, chain)->Done_0;
    lemma_no_url(scene, joined, 0, base);
    assert(joined.skip(0) == joined);
    minified_is_free(joined, '@');
    let out = minified(joined);
    reveal_strlit("@import");
    assert forall|i: int| 0 <= i < out.len() implies !occurs_at(out, i, "@import"@) by {
        if occurs_at(out, i, "@import"@) {
            assert(out.subrange(i, i + "@import"@.len())[0] == out[i]);
        }
    }
}

proof fn lemma_uncommented_free(s: Seq<char>, i: int, c: char)
    requires
        free(s, c),
    ensures
        free(uncommented_from(s, i), c),
    decreases s.len() - i,
{
    if !(i < 0 || i >= s.len()) {
        match comment_end(s, i) {
            Some(end) if i < end <= s.len() => {
                lemma_uncommented_free(s, end, c);
            },
            _ => {
                lemma_uncommented_free(s, i + 1, c);
            },
        }
    }
}

/// An `@import` statement without a condition that names a plain sheet
/// without `@` gives way to a text without `@`.
pub proof fn plain_import_brings_no_at(
    scene: Scene,
    body: Seq<char>,
    base: Seq<char>,
    chain: Seq<Seq<char>>,
    css: Seq<char>,
)
    requires
        resolved(import_reference(body), base) is Some,
        within(scene, resolved(import_reference(body), base)->0) == Resolution::Known(
            EntryView::Inlined(css),
        ),
        !chain.contains(within_place(scene, resolved(import_reference(body), base)->0)),
        import_condition(body) is None,
        free(css, '@'),
        lacks(uncommented(css), "url"@),
    ensures
        import_value(scene, body, base, chain) is Done,
        free(import_value(scene, body, base, chain)->Done_0, '@'),
{
    let bare = uncommented(css);
    lemma_uncommented_free(css, 0, '@');
    reveal_strlit("@import");
    assert forall|i: int| 0 <= i < bare.len() implies !occurs_at(bare, i, "@import"@) by {
        if occurs_at(bare, i, "@import"@) {
            assert(bare.subrange(i, i + "@import"@.len())[0] == bare[i]);
        }
    }
    import_of_plain_sheet(scene, body, base, chain, css);
    minified_is_free(bare, '@');
}

/// With `inline_fonts` off no edit of the first round names an icon, image
/// or video whose `src` or `href` names a font: it stays as it is in what a
/// pass hands back.
pub proof fn fonts_off_in_the_list(
    slots: Seq<SlotView>,
    config: Config,
    root: Seq<char>,
    document: Seq<ElementView>,
    i: int,
    j: int,
)
    requires
        !config.inline_fonts,
        0 <= i < document.len(),
        media_attribute(document[i]) is Some,
        attribute(document[i].attributes, media_attribute(document[i])->0) is Some,
        is_font(normalized(media_source(document[i]))),
        round_edits(Round::Media, scene_of(slots, config, root), document) is Done,
        0 <= j < round_edits(Round::Media, scene_of(slots, config, root), document)->Done_0.len(),
    ensures
        target(round_edits(Round::Media, scene_of(slots, config, root), document)->Done_0[j])
            != i,
{
    fonts_off(slots, media_source(document[i]), config, root);
    unedited_has_no_edit(Round::Media, scene_of(slots, config, root), document, i, j);
}

} // verus!
