//! The resources of one pass: what was fetched for each address, and what is
//! still to fetch.
//!
//! The library fetches nothing itself. Where a pass needs a resource that the
//! cache does not hold, it asks for it with a [`Request`]; the caller
//! fetches, hands the outcome to [`Cache::record`], and runs the pass again.
//! The cache is asked before any request is made, and a failed fetch is
//! recorded like any other outcome, so nothing is fetched twice.
//!
//! What was fetched is held under its location. An address that is left
//! out before any fetch (a font where fonts are not inlined, a URL where
//! remote resources are not) is noted under the address itself, as left
//! out. A data URI is neither fetched nor noted.

use vstd::prelude::*;
use crate::address::{
    absolute_url, as_url, extension, extension_of, has_data_scheme, is_data, join_path,
    joined_path, normalize, normalized, texts,
};
use crate::config::{has_font_ending, is_font, Config, Error, ErrorView};
use crate::encode::{encode, encoded};
use crate::mime::{content_type, MimeLine, MimeTable};
use crate::text::{chars_of, copy_of, same_text, text_of};

verus! {

/// What to fetch.
pub struct Request {
    /// The URL to get, or the path of the file to read. The outcome is
    /// recorded under it.
    pub location: String,
    /// Whether `location` is a URL.
    pub remote: bool,
}

/// A [`Request`] with its text as characters.
pub struct RequestView {
    pub location: Seq<char>,
    pub remote: bool,
}

impl View for Request {
    type V = RequestView;

    open spec fn view(&self) -> RequestView {
        RequestView { location: self.location@, remote: self.remote }
    }
}

/// How a fetch ended.
pub enum Fetched {
    /// The bytes that came, and the content type that the server named, if
    /// one did.
    Content { bytes: Vec<u8>, content_type: Option<String> },
    /// Nothing came.
    Failed(Error),
}

/// A [`Fetched`] with its texts as characters.
pub enum FetchedView {
    Content { bytes: Seq<u8>, content_type: Option<Seq<char>> },
    Failed(ErrorView),
}

impl View for Fetched {
    type V = FetchedView;

    open spec fn view(&self) -> FetchedView {
        match self {
            Fetched::Content { bytes, content_type } => FetchedView::Content {
                bytes: bytes@,
                content_type: match content_type {
                    Some(kind) => Some(kind@),
                    None => None,
                },
            },
            Fetched::Failed(error) => FetchedView::Failed(error@),
        }
    }
}

/// What the cache holds for a location.
pub enum Entry {
    /// The text that takes the place of the resource.
    Inlined(Vec<char>),
    /// The resource is left out: it is too large, or not of the content type
    /// that its extension stands for.
    Excluded,
    /// The fetch failed.
    Failed(Error),
}

/// An [`Entry`] with its texts as characters.
pub enum EntryView {
    Inlined(Seq<char>),
    Excluded,
    Failed(ErrorView),
}

impl View for Entry {
    type V = EntryView;

    open spec fn view(&self) -> EntryView {
        match self {
            Entry::Inlined(text) => EntryView::Inlined(text@),
            Entry::Excluded => EntryView::Excluded,
            Entry::Failed(error) => EntryView::Failed(error@),
        }
    }
}

/// A location or an address, and what the cache holds for it.
pub struct Slot {
    key: Vec<char>,
    entry: Entry,
}

/// A [`Slot`] with its texts as characters.
pub struct SlotView {
    pub key: Seq<char>,
    pub entry: EntryView,
}

impl View for Slot {
    type V = SlotView;

    closed spec fn view(&self) -> SlotView {
        SlotView { key: self.key@, entry: self.entry@ }
    }
}

/// The cache of one pass: for each location that was fetched, what came of
/// it, and for each address that was left out before any fetch, that it
/// was. Its view is the list of its slots, oldest first.
pub struct Cache {
    slots: Vec<Slot>,
}

impl View for Cache {
    type V = Seq<SlotView>;

    closed spec fn view(&self) -> Seq<SlotView> {
        self.slots@.map_values(|slot: Slot| slot@)
    }
}

/// The index of the first slot for `key`, or the number of slots where none
/// is for it.
pub open spec fn slot_of(slots: Seq<SlotView>, key: Seq<char>) -> int
    decreases slots.len(),
{
    if slots.len() == 0 {
        0
    } else if slots[0].key == key {
        0
    } else {
        1 + slot_of(slots.skip(1), key)
    }
}

/// What the slots hold for `key`.
pub open spec fn cached(slots: Seq<SlotView>, key: Seq<char>) -> Option<EntryView> {
    if slot_of(slots, key) < slots.len() {
        Some(slots[slot_of(slots, key)].entry)
    } else {
        None
    }
}

/// The slots once `entry` is recorded for `key`: in the slot for `key` where
/// there is one, else in a new slot at the end.
pub open spec fn stored(slots: Seq<SlotView>, key: Seq<char>, entry: EntryView) -> Seq<SlotView> {
    if slot_of(slots, key) < slots.len() {
        slots.update(slot_of(slots, key), SlotView { key, entry })
    } else {
        slots.push(SlotView { key, entry })
    }
}

/// What a fetch of `address` is recorded as. A failure is kept as it is. What
/// came with a content type other than the one that the table gives the
/// extension of `address` is left out, and so is what is longer than
/// `max_inline_size`. All else is inlined.
pub open spec fn settled(
    address: Seq<char>,
    fetched: FetchedView,
    config: Config,
    table: Seq<MimeLine>,
) -> EntryView {
    match fetched {
        FetchedView::Failed(error) => EntryView::Failed(error),
        FetchedView::Content { bytes, content_type: named } => {
            let expected = content_type(table, extension(address));
            if named is Some && expected is Some && named->0 != expected->0 {
                EntryView::Excluded
            } else if bytes.len() > config.max_inline_size {
                EntryView::Excluded
            } else {
                EntryView::Inlined(encoded(bytes, address, table))
            }
        },
    }
}

/// What is to be loaded for the normalized `address`, given whether it is a
/// URL: nothing for a font where fonts are not inlined, nothing for a URL
/// where remote resources are not inlined; else the URL itself, or the file
/// at `address` seen from `root`.
pub open spec fn planned(address: Seq<char>, is_url: bool, config: Config, root: Seq<char>)
    -> Option<RequestView> {
    if !config.inline_fonts && is_font(address) {
        None
    } else if is_url {
        if config.inline_remote {
            Some(RequestView { location: address, remote: true })
        } else {
            None
        }
    } else {
        Some(RequestView { location: joined_path(root, address), remote: false })
    }
}

/// What is to be loaded for the normalized `address`. It counts as a URL
/// where the URL parser reads an absolute URL from it.
pub open spec fn load_plan(address: Seq<char>, config: Config, root: Seq<char>) -> Option<
    RequestView,
> {
    planned(address, absolute_url(address) is Some, config, root)
}

/// What stands behind a reference.
pub enum Resolution {
    /// Nothing is inlined for it: it is a data URI, or the configuration
    /// leaves it out.
    Skipped,
    /// The cache holds this entry for it.
    Known(EntryView),
    /// It is to be fetched.
    Wanted(RequestView),
}

/// Where the resource behind the reference `path` is: the location that a
/// request for it names. A reference that is never fetched has none, and
/// stands for itself.
pub open spec fn place(path: Seq<char>, config: Config, root: Seq<char>) -> Seq<char> {
    match load_plan(normalized(path), config, root) {
        Some(request) => request.location,
        None => normalized(path),
    }
}

/// What stands behind the reference `path`. Its address is `path` without
/// query and fragment. The cache holds what was fetched by location: by URL,
/// or by file path seen from `root`.
pub open spec fn resolution(
    slots: Seq<SlotView>,
    path: Seq<char>,
    config: Config,
    root: Seq<char>,
) -> Resolution {
    let address = normalized(path);
    if is_data(address) {
        Resolution::Skipped
    } else {
        match load_plan(address, config, root) {
            None => Resolution::Skipped,
            Some(request) => match cached(slots, request.location) {
                Some(entry) => Resolution::Known(entry),
                None => Resolution::Wanted(request),
            },
        }
    }
}

/// The address that is left out before any fetch, where the reference
/// `path` names one: its address is no data URI, and nothing is to be
/// loaded for it.
pub open spec fn excluded(path: Seq<char>, config: Config, root: Seq<char>) -> Option<Seq<char>> {
    if !is_data(normalized(path)) && load_plan(normalized(path), config, root) is None {
        Some(normalized(path))
    } else {
        None
    }
}

/// What looking up the reference `path` leaves to note in the cache: its
/// address where that is left out before any fetch, else nothing.
pub open spec fn lookup_notes(path: Seq<char>, config: Config, root: Seq<char>) -> Seq<Seq<char>> {
    match excluded(path, config, root) {
        Some(address) => seq![address],
        None => Seq::empty(),
    }
}

/// The slots once it is noted that `key` is left out: as they were where
/// they hold something for `key`, else with a new slot at the end that
/// marks `key` as left out.
pub open spec fn noted(slots: Seq<SlotView>, key: Seq<char>) -> Seq<SlotView> {
    if cached(slots, key) is Some {
        slots
    } else {
        slots.push(SlotView { key, entry: EntryView::Excluded })
    }
}

/// The slots once each of `keys` is noted as left out, in their order.
pub open spec fn noted_all(slots: Seq<SlotView>, keys: Seq<Seq<char>>) -> Seq<SlotView>
    decreases keys.len(),
{
    if keys.len() == 0 {
        slots
    } else {
        noted(noted_all(slots, keys.drop_last()), keys.last())
    }
}

/// The texts of a list as characters.
pub open spec fn keys(list: Seq<Vec<char>>) -> Seq<Seq<char>> {
    list.map_values(|key: Vec<char>| key@)
}

/// The answer to a caller that takes a failed fetch for a resource that is
/// left out.
pub enum Lookup {
    /// The text to inline, or `None` where nothing is inlined.
    Value(Option<String>),
    /// The resource is to be fetched first.
    Fetch(Request),
}

/// A [`Lookup`] with its texts as characters.
pub enum LookupView {
    Value(Option<Seq<char>>),
    Fetch(RequestView),
}

impl View for Lookup {
    type V = LookupView;

    open spec fn view(&self) -> LookupView {
        match self {
            Lookup::Value(Some(text)) => LookupView::Value(Some(text@)),
            Lookup::Value(None) => LookupView::Value(None),
            Lookup::Fetch(request) => LookupView::Fetch(request@),
        }
    }
}

/// What `get` answers for the reference `path`.
pub open spec fn lookup(slots: Seq<SlotView>, path: Seq<char>, config: Config, root: Seq<char>)
    -> LookupView {
    match resolution(slots, path, config, root) {
        Resolution::Skipped => LookupView::Value(None),
        Resolution::Known(entry) => LookupView::Value(inlined(entry)),
        Resolution::Wanted(request) => LookupView::Fetch(request),
    }
}

/// How many of the slots are for a location that is not in `chain`.
pub open spec fn unvisited(slots: Seq<SlotView>, chain: Seq<Seq<char>>) -> nat
    decreases slots.len(),
{
    if slots.len() == 0 {
        0
    } else if chain.contains(slots.last().key) {
        unvisited(slots.drop_last(), chain)
    } else {
        1 + unvisited(slots.drop_last(), chain)
    }
}

/// Where `slot_of` points: to the first slot whose key is `key`.
pub proof fn lemma_slot_of_bounds(slots: Seq<SlotView>, key: Seq<char>)
    ensures
        0 <= slot_of(slots, key) <= slots.len(),
        slot_of(slots, key) < slots.len() ==> slots[slot_of(slots, key)].key == key,
        forall|i: int| 0 <= i < slot_of(slots, key) ==> (#[trigger] slots[i]).key != key,
    decreases slots.len(),
{
    if slots.len() > 0 && slots[0].key != key {
        let rest = slots.skip(1);
        lemma_slot_of_bounds(rest, key);
        assert forall|i: int| 0 <= i < slot_of(slots, key) implies (#[trigger] slots[i]).key
            != key by {
            if i > 0 {
                assert(slots[i] == rest[i - 1]);
            }
        }
        if slot_of(slots, key) < slots.len() {
            assert(slots[slot_of(slots, key)] == rest[slot_of(rest, key)]);
        }
    }
}

/// The first slot whose key is `key` is the slot of `key`.
pub proof fn lemma_slot_of_first(slots: Seq<SlotView>, key: Seq<char>, at: int)
    requires
        0 <= at <= slots.len(),
        forall|i: int| 0 <= i < at ==> (#[trigger] slots[i]).key != key,
        at < slots.len() ==> slots[at].key == key,
    ensures
        slot_of(slots, key) == at,
    decreases slots.len(),
{
    if slots.len() > 0 && at > 0 {
        let rest = slots.skip(1);
        assert(slots[0].key != key);
        assert forall|i: int| 0 <= i < at - 1 implies (#[trigger] rest[i]).key != key by {
            assert(rest[i] == slots[i + 1]);
        }
        lemma_slot_of_first(rest, key, at - 1);
    }
}

/// What is recorded for a location is what the cache then holds for it, and
/// nothing changes for any other location.
pub proof fn lemma_stored(slots: Seq<SlotView>, key: Seq<char>, entry: EntryView, other: Seq<char>)
    ensures
        cached(stored(slots, key, entry), key) == Some(entry),
        other != key ==> cached(stored(slots, key, entry), other) == cached(slots, other),
{
    let after = stored(slots, key, entry);
    let at = slot_of(slots, key);
    lemma_slot_of_bounds(slots, key);
    lemma_slot_of_first(after, key, at);
    if other != key {
        let there = slot_of(slots, other);
        lemma_slot_of_bounds(slots, other);
        if there < slots.len() {
            lemma_slot_of_first(after, other, there);
        } else {
            lemma_slot_of_first(after, other, after.len() as int);
        }
    }
}

/// A chain that takes in a location with a slot of its own leaves fewer
/// slots unvisited.
pub proof fn lemma_unvisited_less(slots: Seq<SlotView>, chain: Seq<Seq<char>>, key: Seq<char>)
    requires
        cached(slots, key) is Some,
        !chain.contains(key),
    ensures
        unvisited(slots, chain.push(key)) < unvisited(slots, chain),
{
    lemma_slot_of_bounds(slots, key);
    lemma_unvisited_step(slots, chain, key, slot_of(slots, key));
}

proof fn lemma_unvisited_step(
    slots: Seq<SlotView>,
    chain: Seq<Seq<char>>,
    key: Seq<char>,
    at: int,
)
    requires
        !chain.contains(key),
    ensures
        unvisited(slots, chain.push(key)) <= unvisited(slots, chain),
        0 <= at < slots.len() && slots[at].key == key ==> unvisited(slots, chain.push(key))
            < unvisited(slots, chain),
    decreases slots.len(),
{
    if slots.len() > 0 {
        let longer = chain.push(key);
        lemma_unvisited_step(slots.drop_last(), chain, key, at);
        assert forall|k: Seq<char>| chain.contains(k) implies longer.contains(k) by {
            let i = choose|i: int| 0 <= i < chain.len() && chain[i] == k;
            assert(longer[i] == k);
        }
        assert(longer[chain.len() as int] == key);
        if 0 <= at < slots.len() - 1 {
            assert(slots.drop_last()[at] == slots[at]);
        }
    }
}

/// The view of a request that may be missing.
pub open spec fn asked(request: Option<Request>) -> Option<RequestView> {
    match request {
        Some(request) => Some(request@),
        None => None,
    }
}

/// What is to be loaded for the normalized `address`, given whether it is a
/// URL.
pub fn plan(
    address: &Vec<char>,
    is_url: bool,
    config: &Config,
    root_path: &Vec<char>,
) -> (request: Option<Request>)
    ensures
        asked(request) == planned(address@, is_url, *config, root_path@),
{
    if !config.inline_fonts && has_font_ending(address) {
        None
    } else if is_url {
        if config.inline_remote {
            Some(Request { location: text_of(address), remote: true })
        } else {
            None
        }
    } else {
        let path = join_path(root_path, address);
        Some(Request { location: text_of(&path), remote: false })
    }
}

/// What is to be loaded for the normalized `address`, if anything is.
pub fn load_path(address: &Vec<char>, config: &Config, root_path: &Vec<char>) -> (request: Option<
    Request,
>)
    ensures
        asked(request) == load_plan(address@, *config, root_path@),
{
    plan(address, as_url(address).is_some(), config, root_path)
}

/// What a fetch of `address` is recorded as.
pub fn settle(
    address: &Vec<char>,
    fetched: Fetched,
    config: &Config,
    table: &MimeTable,
) -> (entry: Entry)
    ensures
        entry@ == settled(address@, fetched@, *config, table@),
{
    match fetched {
        Fetched::Failed(error) => Entry::Failed(error),
        Fetched::Content { bytes, content_type: named } => {
            let expected = table.lookup(&extension_of(address));
            let wrong = match (&named, &expected) {
                (Some(named), Some(expected)) => !same_text(&chars_of(named.as_str()), expected),
                _ => false,
            };
            if wrong || bytes.len() > config.max_inline_size {
                Entry::Excluded
            } else {
                Entry::Inlined(encode(&bytes, address, table))
            }
        },
    }
}

/// What is inlined for a location from its entry in the cache.
pub open spec fn inlined(entry: EntryView) -> Option<Seq<char>> {
    match entry {
        EntryView::Inlined(text) => Some(text),
        _ => None,
    }
}

/// The characters of a text that may be missing.
pub open spec fn said(text: Option<String>) -> Option<Seq<char>> {
    match text {
        Some(text) => Some(text@),
        None => None,
    }
}

/// Whether a search that ended at `found` stands for `resolution`, with
/// `left_out` the address that it leaves to note.
pub(crate) open spec fn leads_to(
    found: Found,
    slots: Seq<SlotView>,
    resolution: Resolution,
    left_out: Option<Seq<char>>,
) -> bool {
    match found {
        Found::Skipped(note) => resolution == Resolution::Skipped && texts(note) == left_out,
        Found::Known(at) => at < slots.len() && resolution == Resolution::Known(
            slots[at as int].entry,
        ),
        Found::Wanted(request) => resolution == Resolution::Wanted(request@),
    }
}

/// Where a search of the cache ended.
pub(crate) enum Found {
    /// Nothing is inlined for the reference. With it comes the address to
    /// note as left out, if there is one.
    Skipped(Option<Vec<char>>),
    /// At the slot with this index.
    Known(usize),
    /// Nowhere: the resource is to be fetched.
    Wanted(Request),
}

impl Cache {
    /// The cache of a pass that has fetched nothing yet.
    pub fn new() -> (cache: Cache)
        ensures
            cache@ == Seq::<SlotView>::empty(),
    {
        let cache = Cache { slots: Vec::new() };
        assert(cache@ =~= Seq::<SlotView>::empty());
        cache
    }

    /// How many locations the cache holds an outcome for.
    pub fn len(&self) -> (n: usize)
        ensures
            n == self@.len(),
    {
        self.slots.len()
    }

    /// The index of the first slot for `key`, or the number of slots.
    fn find(&self, key: &Vec<char>) -> (at: usize)
        ensures
            at == slot_of(self@, key@),
            at <= self.slots.len(),
            self@.len() == self.slots.len(),
            at < self.slots.len() ==> self@[at as int] == self.slots[at as int]@,
    {
        let mut i: usize = 0;
        while i < self.slots.len()
            invariant
                i <= self.slots.len(),
                self@.len() == self.slots.len(),
                forall|j: int| 0 <= j < i ==> (#[trigger] self@[j]).key != key@,
            decreases self.slots.len() - i,
        {
            if same_text(&self.slots[i].key, key) {
                proof {
                    lemma_slot_of_first(self@, key@, i as int);
                }
                return i;
            }
            i += 1;
        }
        proof {
            lemma_slot_of_first(self@, key@, i as int);
        }
        i
    }

    /// What stands behind the reference `path`: the index of its slot, or the
    /// request for it.
    pub(crate) fn search(
        &self,
        path: &Vec<char>,
        config: &Config,
        root_path: &Vec<char>,
    ) -> (found: Found)
        ensures
            leads_to(
                found,
                self@,
                resolution(self@, path@, *config, root_path@),
                excluded(path@, *config, root_path@),
            ),
            found is Known ==> self@[found->Known_0 as int].key == place(
                path@,
                *config,
                root_path@,
            ) && cached(self@, place(path@, *config, root_path@)) is Some,
    {
        let address = normalize(path);
        if has_data_scheme(&address) {
            return Found::Skipped(None);
        }
        match load_path(&address, config, root_path) {
            None => Found::Skipped(Some(address)),
            Some(request) => {
                let at = self.find(&chars_of(request.location.as_str()));
                if at < self.slots.len() {
                    proof {
                        lemma_slot_of_bounds(self@, request.location@);
                    }
                    Found::Known(at)
                } else {
                    Found::Wanted(request)
                }
            },
        }
    }

    /// What stands behind the reference `path`, as `search` finds it; the
    /// address that it leaves to note goes to the end of `notes`.
    pub(crate) fn look(
        &self,
        path: &Vec<char>,
        config: &Config,
        root_path: &Vec<char>,
        notes: &mut Vec<Vec<char>>,
    ) -> (found: Found)
        ensures
            leads_to(
                found,
                self@,
                resolution(self@, path@, *config, root_path@),
                excluded(path@, *config, root_path@),
            ),
            found is Known ==> self@[found->Known_0 as int].key == place(
                path@,
                *config,
                root_path@,
            ) && cached(self@, place(path@, *config, root_path@)) is Some,
            keys(final(notes)@) == keys(old(notes)@) + lookup_notes(path@, *config, root_path@),
    {
        let found = self.search(path, config, root_path);
        match &found {
            Found::Skipped(Some(address)) => {
                notes.push(copy_of(address));
                assert(keys(notes@) =~= keys(old(notes)@) + seq![address@]);
            },
            _ => {
                assert(keys(notes@) =~= keys(old(notes)@) + Seq::<Seq<char>>::empty());
            },
        }
        found
    }

    /// The location that slot `at` is for.
    pub(crate) fn key(&self, at: usize) -> (key: &Vec<char>)
        requires
            at < self@.len(),
        ensures
            key@ == self@[at as int].key,
    {
        &self.slots[at].key
    }

    /// The entry in slot `at`.
    pub(crate) fn entry(&self, at: usize) -> (entry: &Entry)
        requires
            at < self@.len(),
        ensures
            entry@ == self@[at as int].entry,
    {
        &self.slots[at].entry
    }

    /// Notes that `key` is left out, unless the cache holds something for
    /// it.
    pub fn note(&mut self, key: Vec<char>)
        ensures
            final(self)@ == noted(old(self)@, key@),
    {
        let at = self.find(&key);
        if at >= self.slots.len() {
            let ghost filed = SlotView { key: key@, entry: EntryView::Excluded };
            self.slots.push(Slot { key, entry: Entry::Excluded });
            assert(self@ =~= old(self)@.push(filed));
        }
    }

    /// Notes each of `list` as left out, in their order.
    pub fn note_all(&mut self, list: &Vec<Vec<char>>)
        ensures
            final(self)@ == noted_all(old(self)@, keys(list@)),
    {
        let mut i: usize = 0;
        assert(keys(list@).take(0) =~= Seq::<Seq<char>>::empty());
        while i < list.len()
            invariant
                i <= list.len(),
                self@ == noted_all(old(self)@, keys(list@).take(i as int)),
            decreases list.len() - i,
        {
            assert(keys(list@).take(i + 1).drop_last() =~= keys(list@).take(i as int));
            assert(keys(list@).take(i + 1).last() == list@[i as int]@);
            self.note(copy_of(&list[i]));
            i += 1;
        }
        assert(keys(list@).take(list.len() as int) =~= keys(list@));
    }

    /// Records the outcome of the fetch of `location`, and gives back what
    /// is inlined for it from now on.
    pub fn record(
        &mut self,
        location: &str,
        fetched: Fetched,
        config: &Config,
        table: &MimeTable,
    ) -> (value: Option<String>)
        ensures
            final(self)@ == stored(
                old(self)@,
                location@,
                settled(location@, fetched@, *config, table@),
            ),
            said(value) == inlined(settled(location@, fetched@, *config, table@)),
    {
        let key = chars_of(location);
        let entry = settle(&key, fetched, config, table);
        let value = match &entry {
            Entry::Inlined(text) => Some(text_of(text)),
            _ => None,
        };
        let at = self.find(&key);
        let ghost filed = SlotView { key: location@, entry: entry@ };
        if at < self.slots.len() {
            self.slots[at] = Slot { key, entry };
            assert(self@ =~= old(self)@.update(at as int, filed));
        } else {
            self.slots.push(Slot { key, entry });
            assert(self@ =~= old(self)@.push(filed));
        }
        value
    }
}

/// What is inlined for the reference `path` found in a document under
/// `root_path`; the address that it leaves to note goes to the end of
/// `notes`.
pub(crate) fn look_up(
    cache: &Cache,
    path: &str,
    config: &Config,
    root_path: &str,
    notes: &mut Vec<Vec<char>>,
) -> (answer: Lookup)
    ensures
        answer@ == lookup(cache@, path@, *config, root_path@),
        keys(final(notes)@) == keys(old(notes)@) + lookup_notes(path@, *config, root_path@),
{
    match cache.look(&chars_of(path), config, &chars_of(root_path), notes) {
        Found::Skipped(_) => Lookup::Value(None),
        Found::Known(at) => match cache.entry(at) {
            Entry::Inlined(text) => Lookup::Value(Some(text_of(text))),
            _ => Lookup::Value(None),
        },
        Found::Wanted(request) => Lookup::Fetch(request),
    }
}

/// What is inlined for the reference `path` found in a document under
/// `root_path`: the text, or nothing; or the request for what has to be
/// fetched before that can be said. An address that is left out before any
/// fetch is noted in the cache as left out; nothing else in the cache
/// changes.
pub fn get(cache: &mut Cache, path: &str, config: &Config, root_path: &str) -> (answer: Lookup)
    ensures
        answer@ == lookup(old(cache)@, path@, *config, root_path@),
        final(cache)@ == noted_all(old(cache)@, lookup_notes(path@, *config, root_path@)),
{
    let mut notes: Vec<Vec<char>> = Vec::new();
    let answer = look_up(cache, path, config, root_path, &mut notes);
    assert(keys(notes@) =~= lookup_notes(path@, *config, root_path@));
    cache.note_all(&notes);
    answer
}

} // verus!
