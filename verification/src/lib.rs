//! Embeds the resources that an HTML document refers to (scripts, style
//! sheets, images, icons, videos, fonts) into the document itself, as data
//! URIs or as text.
//!
//! The library fetches nothing and parses no HTML. A caller hands it the
//! elements of a document and a [`Cache`] of what was fetched so far, and
//! gets back the edits that inline everything, or the [`Request`] for the
//! next resource to fetch. What a pass leaves out before any fetch, it notes
//! in the cache.

pub mod address;
pub mod cache;
pub mod config;
pub mod css;
pub mod document;
pub mod encode;
pub mod laws;
pub mod mime;
pub mod minify;
pub mod scan;
pub mod shapes;
pub mod step;
pub mod text;
pub mod tidy;

pub use crate::cache::{get, load_path, Cache, Fetched, Lookup, Request};
pub use crate::config::{Config, Error};
pub use crate::css::{inline_css, inline_css_path};
pub use crate::document::{
    collapse_spaces, inline_base64, inline_html_string, inline_script_link, needs_text,
    Attribute, Edit, Element,
};
pub use crate::mime::MimeTable;
pub use crate::minify::compress_css;
pub use crate::step::Step;
