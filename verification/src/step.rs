//! How far a pass came: to its end, to a resource that has to be fetched
//! first, or to a failure.

use vstd::prelude::*;
use crate::cache::{Cache, Request, RequestView, SlotView};
use crate::config::{Config, Error, ErrorView};

verus! {

/// How far a pass came, in terms of the views of what it holds.
pub enum Outcome<T> {
    /// To its end, with this result.
    Done(T),
    /// To a resource that the cache does not hold.
    Fetch(RequestView),
    /// To a failure.
    Failed(ErrorView),
}

/// How far a pass came.
pub enum Step<T> {
    /// To its end, with this result.
    Done(T),
    /// To a resource that the cache does not hold: fetch it, record the
    /// outcome, and run the pass again.
    Fetch(Request),
    /// To a failure.
    Failed(Error),
}

impl<T: View> View for Step<T> {
    type V = Outcome<T::V>;

    open spec fn view(&self) -> Outcome<T::V> {
        match self {
            Step::Done(value) => Outcome::Done(value@),
            Step::Fetch(request) => Outcome::Fetch(request@),
            Step::Failed(error) => Outcome::Failed(error@),
        }
    }
}

/// `rest` with `front` before its text, where it came to its end.
pub open spec fn behind(front: Seq<char>, rest: Outcome<Seq<char>>) -> Outcome<Seq<char>> {
    match rest {
        Outcome::Done(text) => Outcome::Done(front + text),
        other => other,
    }
}

/// What a pass works with, in terms of views: the slots of the cache, the
/// configuration, and the directory of the document.
pub struct Scene {
    pub slots: Seq<SlotView>,
    pub config: Config,
    pub root: Seq<char>,
}

/// The scene of a pass over a document under `root`.
pub open spec fn scene_of(slots: Seq<SlotView>, config: Config, root: Seq<char>) -> Scene {
    Scene { slots, config, root }
}

/// The view of a step that ends with a text or with none.
pub open spec fn maybe(step: Step<Option<String>>) -> Outcome<Option<Seq<char>>> {
    match step {
        Step::Done(Some(text)) => Outcome::Done(Some(text@)),
        Step::Done(None) => Outcome::Done(None),
        Step::Fetch(request) => Outcome::Fetch(request@),
        Step::Failed(error) => Outcome::Failed(error@),
    }
}

/// What a pass works with.
pub struct Pass<'a> {
    pub cache: &'a Cache,
    pub config: &'a Config,
    pub root: &'a Vec<char>,
}

impl<'a> View for Pass<'a> {
    type V = Scene;

    open spec fn view(&self) -> Scene {
        Scene { slots: self.cache@, config: *self.config, root: self.root@ }
    }
}

} // verus!
