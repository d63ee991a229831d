//! What a caller chooses for a pass, and how a pass can fail.

use vstd::prelude::*;
use crate::text::{chars_of, ends_with, finishes_with};

verus! {

/// The choices for one pass. `Default` switches everything on.
#[derive(Debug, Clone, Copy)]
pub struct Config {
    /// Whether fonts are inlined.
    pub inline_fonts: bool,
    /// Whether what a URL names is fetched and inlined.
    pub inline_remote: bool,
    /// The largest size in bytes of a resource that is inlined.
    pub max_inline_size: usize,
}

impl Default for Config {
    /// Fonts and remote resources are inlined, up to 5000 bytes each.
    fn default() -> (config: Config)
        ensures
            config.inline_fonts,
            config.inline_remote,
            config.max_inline_size == 5000,
    {
        Config { inline_fonts: true, inline_remote: true, max_inline_size: 5000 }
    }
}

/// Why a pass failed.
#[derive(Debug)]
pub enum Error {
    /// A reference that names no place to read from; it holds the reference.
    InvalidPath(String),
    /// A file could not be read; it holds what the system said.
    Io(String),
    /// A request over the network failed; it holds what the client said.
    HttpRequest(String),
    /// A style sheet imports itself, directly or through others; it holds
    /// the address that came up again.
    ImportCycle(String),
}

/// An [`Error`] with its text as characters.
pub enum ErrorView {
    InvalidPath(Seq<char>),
    Io(Seq<char>),
    HttpRequest(Seq<char>),
    ImportCycle(Seq<char>),
}

impl View for Error {
    type V = ErrorView;

    open spec fn view(&self) -> ErrorView {
        match self {
            Error::InvalidPath(s) => ErrorView::InvalidPath(s@),
            Error::Io(s) => ErrorView::Io(s@),
            Error::HttpRequest(s) => ErrorView::HttpRequest(s@),
            Error::ImportCycle(s) => ErrorView::ImportCycle(s@),
        }
    }
}

impl Error {
    /// A copy of the error.
    pub fn duplicate(&self) -> (copy: Error)
        ensures
            copy@ == self@,
    {
        match self {
            Error::InvalidPath(s) => Error::InvalidPath(s.clone()),
            Error::Io(s) => Error::Io(s.clone()),
            Error::HttpRequest(s) => Error::HttpRequest(s.clone()),
            Error::ImportCycle(s) => Error::ImportCycle(s.clone()),
        }
    }

    /// The text that the error holds.
    pub fn detail(&self) -> (text: &String)
        ensures
            text@ == error_detail(self@),
    {
        match self {
            Error::InvalidPath(s) => s,
            Error::Io(s) => s,
            Error::HttpRequest(s) => s,
            Error::ImportCycle(s) => s,
        }
    }

    /// The error in words: the text between backticks, with what kind of
    /// failure it was in front for a request and for a cycle.
    pub fn message(&self) -> (text: String)
        ensures
            text@ == error_message(self@),
    {
        let lead = match self {
            Error::InvalidPath(_) => "`",
            Error::Io(_) => "`",
            Error::HttpRequest(_) => "http request error: `",
            Error::ImportCycle(_) => "import cycle: `",
        };
        let mut text = String::from_str(lead);
        text.append(self.detail().as_str());
        text.append("`");
        text
    }
}

/// The text that an error holds.
pub open spec fn error_detail(error: ErrorView) -> Seq<char> {
    match error {
        ErrorView::InvalidPath(s) => s,
        ErrorView::Io(s) => s,
        ErrorView::HttpRequest(s) => s,
        ErrorView::ImportCycle(s) => s,
    }
}

/// An error in words.
pub open spec fn error_message(error: ErrorView) -> Seq<char> {
    let lead = match error {
        ErrorView::InvalidPath(_) => "`"@,
        ErrorView::Io(_) => "`"@,
        ErrorView::HttpRequest(_) => "http request error: `"@,
        ErrorView::ImportCycle(_) => "import cycle: `"@,
    };
    lead + error_detail(error) + "`"@
}

/// Whether `path` ends as a font file does: with `.eot`, `.woff2`, `.woff`
/// or `.tff`.
pub open spec fn is_font(path: Seq<char>) -> bool {
    ||| finishes_with(path, ".eot"@)
    ||| finishes_with(path, ".woff2"@)
    ||| finishes_with(path, ".woff"@)
    ||| finishes_with(path, ".tff"@)
}

/// Whether `path` ends as a font file does.
pub fn has_font_ending(path: &Vec<char>) -> (font: bool)
    ensures
        font == is_font(path@),
{
    ends_with(path, &chars_of(".eot")) || ends_with(path, &chars_of(".woff2")) || ends_with(
        path,
        &chars_of(".woff"),
    ) || ends_with(path, &chars_of(".tff"))
}

} // verus!
