//! From the bytes of a resource to the text that takes its place: a data URI
//! for what the table knows as binary, the bytes read as UTF-8 for the rest.

use vstd::prelude::*;
use crate::address::{extension, extension_of};
use crate::mime::{content_type, MimeLine, MimeTable};
use crate::text::{append, chars_of};

verus! {

/// The text that `base64::encode` gives for `bytes`: base64 with the
/// standard alphabet, padded.
pub uninterp spec fn base64_text(bytes: Seq<u8>) -> Seq<char>;

/// The text that `String::from_utf8_lossy` reads from `bytes`: their UTF-8
/// reading, with the replacement character for what is not UTF-8.
pub uninterp spec fn lossy_text(bytes: Seq<u8>) -> Seq<char>;

/// The data URI for a payload of the given content type.
pub open spec fn data_uri(content_type: Seq<char>, payload: Seq<char>) -> Seq<char> {
    "data:"@ + content_type + ";base64,"@ + payload
}

/// What takes the place of a resource at `address` that holds `bytes`.
pub open spec fn encoded(bytes: Seq<u8>, address: Seq<char>, table: Seq<MimeLine>) -> Seq<char> {
    match content_type(table, extension(address)) {
        Some(kind) => data_uri(kind, base64_text(bytes)),
        None => lossy_text(bytes),
    }
}

/// `base64::encode`. It gives the same text for the same bytes. It stops
/// only where the length of its result does not fit a `usize`, which no
/// slice is long enough for: a slice holds at most `isize::MAX` bytes.
#[verifier::external_body]
fn base64_of(bytes: &[u8]) -> (text: String)
    ensures
        text@ == base64_text(bytes@),
{
    base64::encode(bytes)
}

/// `String::from_utf8_lossy`. It gives the same text for the same bytes.
#[verifier::external_body]
fn lossy_of(bytes: &[u8]) -> (text: String)
    ensures
        text@ == lossy_text(bytes@),
{
    String::from_utf8_lossy(bytes).into_owned()
}

/// What takes the place of a resource at `address` that holds `bytes`: for
/// an extension that the table lists,
/// `data:<content type>;base64,<the bytes in base64>`; for any other, the
/// bytes read as UTF-8.
pub fn encode(bytes: &Vec<u8>, address: &Vec<char>, table: &MimeTable) -> (text: Vec<char>)
    ensures
        text@ == encoded(bytes@, address@, table@),
{
    match table.lookup(&extension_of(address)) {
        Some(kind) => make_data_uri(&kind, &chars_of(base64_of(bytes.as_slice()).as_str())),
        None => chars_of(lossy_of(bytes.as_slice()).as_str()),
    }
}

/// The data URI for a payload of the given content type.
pub fn make_data_uri(content_type: &Vec<char>, payload: &Vec<char>) -> (uri: Vec<char>)
    ensures
        uri@ == data_uri(content_type@, payload@),
{
    let mut uri = chars_of("data:");
    append(&mut uri, content_type);
    append(&mut uri, &chars_of(";base64,"));
    append(&mut uri, payload);
    uri
}

/// A data URI begins with `data:`, goes on with the content type and
/// `;base64,`, and holds after that the payload and nothing else.
pub proof fn lemma_data_uri_parts(content_type: Seq<char>, payload: Seq<char>)
    ensures
        crate::address::is_data(data_uri(content_type, payload)),
        data_uri(content_type, payload).len() == 13 + content_type.len() + payload.len(),
        data_uri(content_type, payload).skip(13 + content_type.len() as int) == payload,
        data_uri(content_type, payload).subrange(5, 5 + content_type.len() as int) == content_type,
{
    reveal_strlit("data:");
    reveal_strlit(";base64,");
    let uri = data_uri(content_type, payload);
    assert(uri.subrange(0, 5) =~= "data:"@);
    assert(uri.skip(13 + content_type.len() as int) =~= payload);
    assert(uri.subrange(5, 5 + content_type.len() as int) =~= content_type);
}

} // verus!
