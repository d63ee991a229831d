//! The pass over a document: which of its elements are rewritten, and how.
//!
//! A document comes as the list of its elements in document order, each
//! with its tag, its attributes and the text inside it. A pass answers with
//! the list of edits that inline what the elements refer to. It runs in two
//! rounds: first images, videos and icons, then scripts and styles. The
//! second round reads no attribute that the first one sets.
//!
//! The addresses that a pass finds left out before any fetch are noted in
//! the cache as left out, in the order in which the pass met them.

use vstd::prelude::*;
use crate::cache::{
    keys, look_up, lookup, lookup_notes, noted_all, Cache, Lookup, LookupView,
};
use crate::config::Config;
use crate::css::{
    inline_sheet_at, inline_sheet_behind, seen_from, sheet, sheet_at, sheet_at_notes,
    sheet_notes,
};
use crate::step::{scene_of, Outcome, Scene, Step};
use crate::text::{chars_of, same_text, text_of};

verus! {

/// An attribute of an element.
pub struct Attribute {
    pub name: String,
    pub value: String,
}

/// An [`Attribute`] with its texts as characters.
pub struct AttributeView {
    pub name: Seq<char>,
    pub value: Seq<char>,
}

impl View for Attribute {
    type V = AttributeView;

    open spec fn view(&self) -> AttributeView {
        AttributeView { name: self.name@, value: self.value@ }
    }
}

/// An element of a document.
pub struct Element {
    /// The tag, in lower case.
    pub tag: String,
    /// The attributes, each name once.
    pub attributes: Vec<Attribute>,
    /// The text inside the element. Only that of a `style` is read.
    pub text: String,
}

/// An [`Element`] with its texts as characters.
pub struct ElementView {
    pub tag: Seq<char>,
    pub attributes: Seq<AttributeView>,
    pub text: Seq<char>,
}

impl View for Element {
    type V = ElementView;

    open spec fn view(&self) -> ElementView {
        ElementView {
            tag: self.tag@,
            attributes: self.attributes@.map_values(|a: Attribute| a@),
            text: self.text@,
        }
    }
}

/// A change to one element of a document.
pub enum Edit {
    /// The attribute `name` of the element at index `element` gets `value`.
    SetAttribute { element: usize, name: String, value: String },
    /// A new element with the tag `tag`, no attributes and `text` inside it
    /// takes the place of the element at index `element`.
    Replace { element: usize, tag: String, text: String },
}

/// An [`Edit`] with its texts as characters.
pub enum EditView {
    SetAttribute { element: int, name: Seq<char>, value: Seq<char> },
    Replace { element: int, tag: Seq<char>, text: Seq<char> },
}

impl View for Edit {
    type V = EditView;

    open spec fn view(&self) -> EditView {
        match self {
            Edit::SetAttribute { element, name, value } => EditView::SetAttribute {
                element: *element as int,
                name: name@,
                value: value@,
            },
            Edit::Replace { element, tag, text } => EditView::Replace {
                element: *element as int,
                tag: tag@,
                text: text@,
            },
        }
    }
}

/// The elements of a document as their views.
pub open spec fn elements(document: Seq<Element>) -> Seq<ElementView> {
    document.map_values(|e: Element| e@)
}

/// The edits of a list as their views.
pub open spec fn changes(edits: Seq<Edit>) -> Seq<EditView> {
    edits.map_values(|e: Edit| e@)
}

/// The value of the first of `attributes` that is named `name`.
pub open spec fn attribute(attributes: Seq<AttributeView>, name: Seq<char>) -> Option<Seq<char>>
    decreases attributes.len(),
{
    if attributes.len() == 0 {
        None
    } else if attributes[0].name == name {
        Some(attributes[0].value)
    } else {
        attribute(attributes.skip(1), name)
    }
}

/// The two rounds of a pass.
pub enum Round {
    /// Images, videos and icons.
    Media,
    /// Scripts, style sheets and `style` attributes.
    Styles,
}

/// Whether `rel` marks a link as an icon.
pub open spec fn is_icon(rel: Seq<char>) -> bool {
    ||| rel == "icon"@
    ||| rel == "shortcut icon"@
    ||| rel == "apple-touch-icon"@
    ||| rel == "apple-touch-startup-image"@
}

/// The attribute in which an element of the first round names its
/// resource: `src` for `video` and `img`, `href` for a `link` that is an
/// icon; `None` for every other element.
pub open spec fn media_attribute(element: ElementView) -> Option<Seq<char>> {
    if element.tag == "video"@ || element.tag == "img"@ {
        Some("src"@)
    } else if element.tag == "link"@ && attribute(element.attributes, "rel"@) is Some && is_icon(
        attribute(element.attributes, "rel"@)->0,
    ) {
        Some("href"@)
    } else {
        None
    }
}

/// The edit of the first round for the element at `index`: its `src` or
/// `href` gets what is inlined for it. There is none where nothing is
/// inlined.
pub open spec fn media_edit(scene: Scene, element: ElementView, index: int) -> Outcome<
    Option<EditView>,
> {
    match media_attribute(element) {
        None => Outcome::Done(None),
        Some(name) => match attribute(element.attributes, name) {
            None => Outcome::Done(None),
            Some(source) => match lookup(scene.slots, source, scene.config, scene.root) {
                LookupView::Fetch(request) => Outcome::Fetch(request),
                LookupView::Value(None) => Outcome::Done(None),
                LookupView::Value(Some(value)) => Outcome::Done(
                    Some(EditView::SetAttribute { element: index, name, value }),
                ),
            },
        },
    }
}

/// The edit that puts a new element in the place of the one at
/// `index`, where the step came to a text.
pub open spec fn replaced(step: Outcome<Option<Seq<char>>>, index: int, tag: Seq<char>) -> Outcome<
    Option<EditView>,
> {
    match step {
        Outcome::Done(Some(text)) => Outcome::Done(
            Some(EditView::Replace { element: index, tag, text }),
        ),
        Outcome::Done(None) => Outcome::Done(None),
        Outcome::Fetch(request) => Outcome::Fetch(request),
        Outcome::Failed(error) => Outcome::Failed(error),
    }
}

/// A step that came to a text, as one that came to a text or to none.
pub open spec fn texted(step: Outcome<Seq<char>>) -> Outcome<Option<Seq<char>>> {
    match step {
        Outcome::Done(text) => Outcome::Done(Some(text)),
        Outcome::Fetch(request) => Outcome::Fetch(request),
        Outcome::Failed(error) => Outcome::Failed(error),
    }
}

/// What is inlined for a reference, as a step.
pub open spec fn looked_up(found: LookupView) -> Outcome<Option<Seq<char>>> {
    match found {
        LookupView::Fetch(request) => Outcome::Fetch(request),
        LookupView::Value(value) => Outcome::Done(value),
    }
}

/// The edit of the second round for the element at `index`.
///
/// - A `script` with a `src` gives way to a `script` that holds what is
///   inlined for the `src`.
/// - A `style` gives way to a `style` that holds its sheet, inlined.
/// - A `link` whose `rel` is `stylesheet` and that has an `href` gives way to
///   a `style` that holds the sheet at the `href`, inlined.
/// - Any other element but `svg` that has a `style` attribute gets its value
///   inlined as a sheet.
///
/// A sheet that is part of the document counts as found in the directory of
/// the document.
pub open spec fn style_edit(scene: Scene, element: ElementView, index: int) -> Outcome<
    Option<EditView>,
> {
    let src = attribute(element.attributes, "src"@);
    let rel = attribute(element.attributes, "rel"@);
    let href = attribute(element.attributes, "href"@);
    let style = attribute(element.attributes, "style"@);
    if element.tag == "script"@ {
        match src {
            Some(source) => replaced(
                looked_up(lookup(scene.slots, source, scene.config, scene.root)),
                index,
                "script"@,
            ),
            None => Outcome::Done(None),
        }
    } else if element.tag == "style"@ {
        replaced(texted(sheet(scene, element.text, scene.root, Seq::empty())), index, "style"@)
    } else if element.tag == "link"@ {
        if rel == Some("stylesheet"@) && href is Some {
            replaced(sheet_at(scene, href->0), index, "style"@)
        } else {
            Outcome::Done(None)
        }
    } else if element.tag != "svg"@ && style is Some {
        match sheet(scene, style->0, scene.root, Seq::empty()) {
            Outcome::Done(value) => Outcome::Done(
                Some(EditView::SetAttribute { element: index, name: "style"@, value }),
            ),
            Outcome::Fetch(request) => Outcome::Fetch(request),
            Outcome::Failed(error) => Outcome::Failed(error),
        }
    } else {
        Outcome::Done(None)
    }
}

/// What the first round leaves to note for an element: the address of its
/// resource, where that is left out before any fetch.
pub open spec fn media_notes(scene: Scene, element: ElementView) -> Seq<Seq<char>> {
    match media_attribute(element) {
        None => Seq::empty(),
        Some(name) => match attribute(element.attributes, name) {
            None => Seq::empty(),
            Some(source) => lookup_notes(source, scene.config, scene.root),
        },
    }
}

/// What the second round leaves to note for an element.
pub open spec fn style_notes(scene: Scene, element: ElementView) -> Seq<Seq<char>> {
    let src = attribute(element.attributes, "src"@);
    let rel = attribute(element.attributes, "rel"@);
    let href = attribute(element.attributes, "href"@);
    let style = attribute(element.attributes, "style"@);
    if element.tag == "script"@ {
        match src {
            Some(source) => lookup_notes(source, scene.config, scene.root),
            None => Seq::empty(),
        }
    } else if element.tag == "style"@ {
        sheet_notes(scene, element.text, scene.root, Seq::empty())
    } else if element.tag == "link"@ {
        if rel == Some("stylesheet"@) && href is Some {
            sheet_at_notes(scene, href->0)
        } else {
            Seq::empty()
        }
    } else if element.tag != "svg"@ && style is Some {
        sheet_notes(scene, style->0, scene.root, Seq::empty())
    } else {
        Seq::empty()
    }
}

/// What a round leaves to note for an element.
pub open spec fn notes_for(round: Round, scene: Scene, element: ElementView) -> Seq<Seq<char>> {
    match round {
        Round::Media => media_notes(scene, element),
        Round::Styles => style_notes(scene, element),
    }
}

/// What a round leaves to note for the first `n` elements of a document:
/// what it leaves for each element that it comes to.
pub open spec fn notes_to(round: Round, scene: Scene, document: Seq<ElementView>, n: int) -> Seq<
    Seq<char>,
>
    decreases n,
{
    if n <= 0 {
        Seq::empty()
    } else if edits_to(round, scene, document, n - 1) is Done {
        notes_to(round, scene, document, n - 1) + notes_for(round, scene, document[n - 1])
    } else {
        notes_to(round, scene, document, n - 1)
    }
}

/// What a round leaves to note for a document.
pub open spec fn round_notes(round: Round, scene: Scene, document: Seq<ElementView>) -> Seq<
    Seq<char>,
> {
    notes_to(round, scene, document, document.len() as int)
}

/// What a pass leaves to note: what the first round leaves, then, where
/// that round came to its end, what the second leaves.
pub open spec fn pass_notes(scene: Scene, document: Seq<ElementView>) -> Seq<Seq<char>> {
    if round_edits(Round::Media, scene, document) is Done {
        round_notes(Round::Media, scene, document) + round_notes(Round::Styles, scene, document)
    } else {
        round_notes(Round::Media, scene, document)
    }
}

/// The edit of a round for the element at `index`.
pub open spec fn edit_for(round: Round, scene: Scene, element: ElementView, index: int) -> Outcome<
    Option<EditView>,
> {
    match round {
        Round::Media => media_edit(scene, element, index),
        Round::Styles => style_edit(scene, element, index),
    }
}

/// The edits of a round for the first `n` elements of a document, in
/// document order. The round ends at the first element that cannot be
/// settled, with what that element ends with.
pub open spec fn edits_to(round: Round, scene: Scene, document: Seq<ElementView>, n: int)
    -> Outcome<Seq<EditView>>
    decreases n,
{
    if n <= 0 {
        Outcome::Done(Seq::empty())
    } else {
        match edits_to(round, scene, document, n - 1) {
            Outcome::Done(edits) => match edit_for(round, scene, document[n - 1], n - 1) {
                Outcome::Done(Some(edit)) => Outcome::Done(edits.push(edit)),
                Outcome::Done(None) => Outcome::Done(edits),
                Outcome::Fetch(request) => Outcome::Fetch(request),
                Outcome::Failed(error) => Outcome::Failed(error),
            },
            other => other,
        }
    }
}

/// The edits of a round for a document.
pub open spec fn round_edits(round: Round, scene: Scene, document: Seq<ElementView>) -> Outcome<
    Seq<EditView>,
> {
    edits_to(round, scene, document, document.len() as int)
}

/// The edits of a pass: those of the first round, then those of the second.
pub open spec fn pass_edits(scene: Scene, document: Seq<ElementView>) -> Outcome<Seq<EditView>> {
    match round_edits(Round::Media, scene, document) {
        Outcome::Done(first) => match round_edits(Round::Styles, scene, document) {
            Outcome::Done(second) => Outcome::Done(first + second),
            other => other,
        },
        other => other,
    }
}

/// The view of a step that ends with a list of edits.
pub open spec fn edited(step: Step<Vec<Edit>>) -> Outcome<Seq<EditView>> {
    match step {
        Step::Done(edits) => Outcome::Done(changes(edits@)),
        Step::Fetch(request) => Outcome::Fetch(request@),
        Step::Failed(error) => Outcome::Failed(error@),
    }
}

/// The first `n` characters of `s` without the spaces that follow a space.
pub open spec fn single_spaced_to(s: Seq<char>, n: int) -> Seq<char>
    decreases n,
{
    if n <= 0 {
        Seq::empty()
    } else if s[n - 1] == ' ' && n >= 2 && s[n - 2] == ' ' {
        single_spaced_to(s, n - 1)
    } else {
        single_spaced_to(s, n - 1).push(s[n - 1])
    }
}

/// `s` with one space for each run of spaces.
pub open spec fn single_spaced(s: Seq<char>) -> Seq<char> {
    single_spaced_to(s, s.len() as int)
}

/// A round that stopped before its end stays where it stopped.
proof fn lemma_round_stops(round: Round, scene: Scene, document: Seq<ElementView>, m: int, n: int)
    requires
        0 <= m <= n,
        !(edits_to(round, scene, document, m) is Done),
    ensures
        edits_to(round, scene, document, n) == edits_to(round, scene, document, m),
    decreases n - m,
{
    if m < n {
        lemma_round_stops(round, scene, document, m, n - 1);
    }
}

/// A round that stopped before its end leaves nothing more to note.
proof fn lemma_notes_stop(round: Round, scene: Scene, document: Seq<ElementView>, m: int, n: int)
    requires
        0 <= m <= n,
        !(edits_to(round, scene, document, m) is Done),
    ensures
        notes_to(round, scene, document, n) == notes_to(round, scene, document, m),
    decreases n - m,
{
    if m < n {
        lemma_notes_stop(round, scene, document, m, n - 1);
        lemma_round_stops(round, scene, document, m, n - 1);
    }
}

/// Whether a pass reads the text inside an element with the given tag. It
/// does so for `style` alone: a caller may leave `text` empty in every other
/// element.
pub fn needs_text(tag: &str) -> (needed: bool)
    ensures
        needed == (tag@ == "style"@),
{
    same_text(&chars_of(tag), &chars_of("style"))
}

/// Whether `text` reads `literal`.
fn reads(text: &String, literal: &str) -> (same: bool)
    ensures
        same == (text@ == literal@),
{
    same_text(&chars_of(text.as_str()), &chars_of(literal))
}

/// The value of the first of the attributes that is named `name`.
fn find_attribute<'a>(attributes: &'a Vec<Attribute>, name: &str) -> (value: Option<&'a String>)
    ensures
        value is Some == attribute(attributes@.map_values(|a: Attribute| a@), name@) is Some,
        value is Some ==> value->0@ == attribute(
            attributes@.map_values(|a: Attribute| a@),
            name@,
        )->0,
{
    let ghost all = attributes@.map_values(|a: Attribute| a@);
    let mut i: usize = 0;
    assert(all.skip(0) == all);
    while i < attributes.len()
        invariant
            i <= attributes.len(),
            all == attributes@.map_values(|a: Attribute| a@),
            attribute(all, name@) == attribute(all.skip(i as int), name@),
        decreases attributes.len() - i,
    {
        assert(all.skip(i as int)[0] == attributes@[i as int]@);
        if reads(&attributes[i].name, name) {
            return Some(&attributes[i].value);
        }
        assert(all.skip(i as int).skip(1) == all.skip(i + 1));
        i += 1;
    }
    None
}

/// The edit of the first round for the element at `index`.
fn inline_media(
    cache: &Cache,
    config: &Config,
    root_path: &str,
    element: &Element,
    index: usize,
    notes: &mut Vec<Vec<char>>,
) -> (step: Step<Option<Edit>>)
    ensures
        one(step) == media_edit(scene_of(cache@, *config, root_path@), element@, index as int),
        keys(final(notes)@) == keys(old(notes)@) + media_notes(
            scene_of(cache@, *config, root_path@),
            element@,
        ),
{
    assert(keys(notes@) + Seq::<Seq<char>>::empty() == keys(notes@));
    let name = if reads(&element.tag, "video") || reads(&element.tag, "img") {
        "src"
    } else if reads(&element.tag, "link") {
        let icon = match find_attribute(&element.attributes, "rel") {
            Some(rel) => reads(rel, "icon") || reads(rel, "shortcut icon") || reads(
                rel,
                "apple-touch-icon",
            ) || reads(rel, "apple-touch-startup-image"),
            None => false,
        };
        if !icon {
            return Step::Done(None);
        }
        "href"
    } else {
        return Step::Done(None);
    };
    match find_attribute(&element.attributes, name) {
        None => Step::Done(None),
        Some(source) => match look_up(cache, source.as_str(), config, root_path, notes) {
            Lookup::Fetch(request) => Step::Fetch(request),
            Lookup::Value(None) => Step::Done(None),
            Lookup::Value(Some(value)) => Step::Done(
                Some(Edit::SetAttribute { element: index, name: String::from_str(name), value }),
            ),
        },
    }
}

/// The view of a step that ends with an edit or with none.
pub open spec fn one(step: Step<Option<Edit>>) -> Outcome<Option<EditView>> {
    match step {
        Step::Done(Some(edit)) => Outcome::Done(Some(edit@)),
        Step::Done(None) => Outcome::Done(None),
        Step::Fetch(request) => Outcome::Fetch(request@),
        Step::Failed(error) => Outcome::Failed(error@),
    }
}

/// The edit that puts a new element with the tag `tag` in the place of the
/// one at `index`.
fn replace(step: Step<Option<String>>, index: usize, tag: &str) -> (edit: Step<Option<Edit>>)
    ensures
        one(edit) == replaced(crate::step::maybe(step), index as int, tag@),
{
    match step {
        Step::Done(Some(text)) => Step::Done(
            Some(Edit::Replace { element: index, tag: String::from_str(tag), text }),
        ),
        Step::Done(None) => Step::Done(None),
        Step::Fetch(request) => Step::Fetch(request),
        Step::Failed(error) => Step::Failed(error),
    }
}

/// The edit of the second round for the element at `index`.
fn inline_style(
    cache: &Cache,
    config: &Config,
    root_path: &str,
    element: &Element,
    index: usize,
    notes: &mut Vec<Vec<char>>,
) -> (step: Step<Option<Edit>>)
    ensures
        one(step) == style_edit(scene_of(cache@, *config, root_path@), element@, index as int),
        keys(final(notes)@) == keys(old(notes)@) + style_notes(
            scene_of(cache@, *config, root_path@),
            element@,
        ),
{
    assert(keys(notes@) + Seq::<Seq<char>>::empty() == keys(notes@));
    assert(seen_from(root_path@, root_path@) == root_path@);
    if reads(&element.tag, "script") {
        match find_attribute(&element.attributes, "src") {
            Some(source) => {
                let text = match look_up(cache, source.as_str(), config, root_path, notes) {
                    Lookup::Fetch(request) => Step::Fetch(request),
                    Lookup::Value(value) => Step::Done(value),
                };
                replace(text, index, "script")
            },
            None => Step::Done(None),
        }
    } else if reads(&element.tag, "style") {
        let css = match inline_sheet_at(
            cache,
            element.text.as_str(),
            root_path,
            config,
            root_path,
            notes,
        ) {
            Step::Done(css) => Step::Done(Some(css)),
            Step::Fetch(request) => Step::Fetch(request),
            Step::Failed(error) => Step::Failed(error),
        };
        replace(css, index, "style")
    } else if reads(&element.tag, "link") {
        let sheet = match find_attribute(&element.attributes, "rel") {
            Some(rel) => reads(rel, "stylesheet"),
            None => false,
        };
        match find_attribute(&element.attributes, "href") {
            Some(href) => {
                if sheet {
                    replace(
                        inline_sheet_behind(cache, href.as_str(), config, root_path, notes),
                        index,
                        "style",
                    )
                } else {
                    Step::Done(None)
                }
            },
            None => Step::Done(None),
        }
    } else if !reads(&element.tag, "svg") {
        match find_attribute(&element.attributes, "style") {
            Some(style) => match inline_sheet_at(
                cache,
                style.as_str(),
                root_path,
                config,
                root_path,
                notes,
            ) {
                Step::Done(value) => Step::Done(
                    Some(
                        Edit::SetAttribute {
                            element: index,
                            name: String::from_str("style"),
                            value,
                        },
                    ),
                ),
                Step::Fetch(request) => Step::Fetch(request),
                Step::Failed(error) => Step::Failed(error),
            },
            None => Step::Done(None),
        }
    } else {
        Step::Done(None)
    }
}

/// The edit of a round for the element at `index`.
fn inline_one(
    round: &Round,
    cache: &Cache,
    config: &Config,
    root_path: &str,
    element: &Element,
    index: usize,
    notes: &mut Vec<Vec<char>>,
) -> (step: Step<Option<Edit>>)
    ensures
        one(step) == edit_for(
            *round,
            scene_of(cache@, *config, root_path@),
            element@,
            index as int,
        ),
        keys(final(notes)@) == keys(old(notes)@) + notes_for(
            *round,
            scene_of(cache@, *config, root_path@),
            element@,
        ),
{
    match round {
        Round::Media => inline_media(cache, config, root_path, element, index, notes),
        Round::Styles => inline_style(cache, config, root_path, element, index, notes),
    }
}

/// The edits of one round for a document.
#[verifier::rlimit(50)]
fn inline_round(
    round: &Round,
    cache: &Cache,
    config: &Config,
    root_path: &str,
    document: &Vec<Element>,
    notes: &mut Vec<Vec<char>>,
) -> (step: Step<Vec<Edit>>)
    ensures
        edited(step) == round_edits(
            *round,
            scene_of(cache@, *config, root_path@),
            elements(document@),
        ),
        keys(final(notes)@) == keys(old(notes)@) + round_notes(
            *round,
            scene_of(cache@, *config, root_path@),
            elements(document@),
        ),
{
    let ghost scene = scene_of(cache@, *config, root_path@);
    let ghost all = elements(document@);
    let mut edits: Vec<Edit> = Vec::new();
    let mut i: usize = 0;
    assert(changes(edits@) =~= Seq::<EditView>::empty());
    assert(keys(notes@) + Seq::<Seq<char>>::empty() == keys(notes@));
    while i < document.len()
        invariant
            i <= document.len(),
            scene == scene_of(cache@, *config, root_path@),
            all == elements(document@),
            edits_to(*round, scene, all, i as int) == Outcome::Done(changes(edits@)),
            keys(notes@) == keys(old(notes)@) + notes_to(*round, scene, all, i as int),
        decreases document.len() - i,
    {
        assert(all[i as int] == document@[i as int]@);
        let ghost start = keys(old(notes)@);
        let ghost before = notes_to(*round, scene, all, i as int);
        let ghost met = notes_for(*round, scene, all[i as int]);
        let step = inline_one(round, cache, config, root_path, &document[i], i, notes);
        assert((start + before) + met == start + (before + met));
        assert(notes_to(*round, scene, all, i + 1) == before + met);
        match step {
            Step::Done(Some(edit)) => {
                let ghost before = changes(edits@);
                edits.push(edit);
                assert(changes(edits@) =~= before.push(edit@));
            },
            Step::Done(None) => {},
            Step::Fetch(request) => {
                proof {
                    lemma_round_stops(*round, scene, all, i + 1, document.len() as int);
                    lemma_notes_stop(*round, scene, all, i + 1, document.len() as int);
                }
                return Step::Fetch(request);
            },
            Step::Failed(error) => {
                proof {
                    lemma_round_stops(*round, scene, all, i + 1, document.len() as int);
                    lemma_notes_stop(*round, scene, all, i + 1, document.len() as int);
                }
                return Step::Failed(error);
            },
        }
        i += 1;
    }
    Step::Done(edits)
}

/// The first round of a pass: for each `video`, `img` and icon `link` of the
/// document, in document order, the edit that gives its `src` or `href`
/// what is inlined for it. An element for which nothing is inlined gets no
/// edit. The addresses that the round found left out before any fetch are
/// noted in the cache as left out; nothing else in the cache changes.
pub fn inline_base64(
    cache: &mut Cache,
    config: &Config,
    root_path: &str,
    document: &Vec<Element>,
) -> (step: Step<Vec<Edit>>)
    ensures
        edited(step) == round_edits(
            Round::Media,
            scene_of(old(cache)@, *config, root_path@),
            elements(document@),
        ),
        final(cache)@ == noted_all(
            old(cache)@,
            round_notes(
                Round::Media,
                scene_of(old(cache)@, *config, root_path@),
                elements(document@),
            ),
        ),
{
    let mut notes: Vec<Vec<char>> = Vec::new();
    let step = inline_round(&Round::Media, cache, config, root_path, document, &mut notes);
    assert(keys(notes@) =~= round_notes(
        Round::Media,
        scene_of(cache@, *config, root_path@),
        elements(document@),
    ));
    cache.note_all(&notes);
    step
}

/// The second round of a pass: for each `script`, `style`, style sheet
/// `link` and element with a `style` attribute, in document order, the edit
/// that inlines it. The addresses that the round found left out before any
/// fetch are noted in the cache as left out; nothing else in the cache
/// changes.
pub fn inline_script_link(
    cache: &mut Cache,
    config: &Config,
    root_path: &str,
    document: &Vec<Element>,
) -> (step: Step<Vec<Edit>>)
    ensures
        edited(step) == round_edits(
            Round::Styles,
            scene_of(old(cache)@, *config, root_path@),
            elements(document@),
        ),
        final(cache)@ == noted_all(
            old(cache)@,
            round_notes(
                Round::Styles,
                scene_of(old(cache)@, *config, root_path@),
                elements(document@),
            ),
        ),
{
    let mut notes: Vec<Vec<char>> = Vec::new();
    let step = inline_round(&Round::Styles, cache, config, root_path, document, &mut notes);
    assert(keys(notes@) =~= round_notes(
        Round::Styles,
        scene_of(cache@, *config, root_path@),
        elements(document@),
    ));
    cache.note_all(&notes);
    step
}

/// One pass over a document under the directory `root_path`: the edits of
/// the first round, then those of the second; or the request for the first
/// resource that the cache lacks; or the failure that a sheet ended with.
/// The addresses that the pass found left out before any fetch are noted in
/// the cache as left out; nothing else in the cache changes.
pub fn inline_html_string(
    document: &Vec<Element>,
    root_path: &str,
    config: &Config,
    cache: &mut Cache,
) -> (step: Step<Vec<Edit>>)
    ensures
        edited(step) == pass_edits(
            scene_of(old(cache)@, *config, root_path@),
            elements(document@),
        ),
        final(cache)@ == noted_all(
            old(cache)@,
            pass_notes(scene_of(old(cache)@, *config, root_path@), elements(document@)),
        ),
{
    let mut notes: Vec<Vec<char>> = Vec::new();
    let step = inline_pass(document, root_path, config, cache, &mut notes);
    assert(keys(notes@) =~= pass_notes(
        scene_of(cache@, *config, root_path@),
        elements(document@),
    ));
    cache.note_all(&notes);
    step
}

/// The two rounds of a pass, one after the other.
fn inline_pass(
    document: &Vec<Element>,
    root_path: &str,
    config: &Config,
    cache: &Cache,
    notes: &mut Vec<Vec<char>>,
) -> (step: Step<Vec<Edit>>)
    ensures
        edited(step) == pass_edits(scene_of(cache@, *config, root_path@), elements(document@)),
        keys(final(notes)@) == keys(old(notes)@) + pass_notes(
            scene_of(cache@, *config, root_path@),
            elements(document@),
        ),
{
    let ghost scene = scene_of(cache@, *config, root_path@);
    let mut first = match inline_round(&Round::Media, cache, config, root_path, document, notes) {
        Step::Done(edits) => edits,
        other => {
            return other;
        },
    };
    assert((keys(old(notes)@) + round_notes(Round::Media, scene, elements(document@)))
        + round_notes(Round::Styles, scene, elements(document@)) == keys(old(notes)@) + (
    round_notes(Round::Media, scene, elements(document@)) + round_notes(
        Round::Styles,
        scene,
        elements(document@),
    )));
    let mut second = match inline_round(
        &Round::Styles,
        cache,
        config,
        root_path,
        document,
        notes,
    ) {
        Step::Done(edits) => edits,
        other => {
            return other;
        },
    };
    let ghost a = changes(first@);
    let ghost b = changes(second@);
    first.append(&mut second);
    assert(changes(first@) =~= a + b);
    Step::Done(first)
}

/// `html` with one space for each run of spaces.
pub fn collapse_spaces(html: &str) -> (out: String)
    ensures
        out@ == single_spaced(html@),
{
    let s = chars_of(html);
    let mut out: Vec<char> = Vec::new();
    let mut i: usize = 0;
    while i < s.len()
        invariant
            i <= s.len(),
            out@ == single_spaced_to(s@, i as int),
        decreases s.len() - i,
    {
        if !(s[i] == ' ' && i > 0 && s[i - 1] == ' ') {
            out.push(s[i]);
        }
        i += 1;
    }
    text_of(&out)
}

} // verus!
