//! The site's public files: which media type a stored file is served with.
use vstd::prelude::*;
use crate::error::{VentError, CommonHeaders};
use crate::text::chars_of;

verus! {

/// The media type (`type/subtype`, without parameters) that `new_mime_guess` takes
/// first for a path, by the path's extension, or `None` where it knows none.
pub uninterp spec fn mime_of_path(path: Seq<char>) -> Option<Seq<char>>;

/// `new_mime_guess::from_path(path).first()`, taken as its essence string. The contract
/// names the outcome: the crate looks the extension up in a fixed table, so it
/// depends on the path alone.
#[verifier::external_body]
fn guess_mime(path: &str) -> (r: Option<String>)
    ensures
        match r {
            Some(m) => mime_of_path(path@) == Some(m@),
            None => mime_of_path(path@) is None,
        },
{
    new_mime_guess::from_path(path).first().map(|m| m.essence_str().to_string())
}

/// The media type a file at `path` is served with, given what was guessed for it:
/// the guess, or an unknown-type error naming the path.
pub fn mime_or_unknown(path: &str, guess: Option<String>) -> (r: Result<String, VentError>)
    ensures
        match guess {
            Some(m) => r matches Ok(t) && t@ == m@,
            None => r matches Err(VentError::UnknownMIME { path: p }) && p@ == path@,
        },
{
    match guess {
        Some(m) => Ok(m),
        None => Err(VentError::UnknownMIME { path: path.to_string() }),
    }
}

/// The media type a stored file is served with, guessed from its path.
pub fn static_file_mime(path: &str) -> (r: Result<String, VentError>)
    ensures
        match mime_of_path(path@) {
            Some(m) => r matches Ok(t) && t@ == m,
            None => r matches Err(VentError::UnknownMIME { path: p }) && p@ == path@,
        },
{
    let guess = guess_mime(path);
    mime_or_unknown(path, guess)
}


/// Whether a character may stand in an HTTP header value as `http`'s `HeaderValue`
/// takes one from text: a tab, or any character from the space on but DEL (every
/// non-ASCII character is written as bytes from 0x80 on, which it takes).
pub open spec fn is_header_char(c: char) -> bool {
    c == '\t' || ((c as u32) >= 32 && (c as u32) != 127)
}

/// Whether a text is a valid HTTP header value: each of its characters may stand in one.
pub open spec fn is_header_value(text: Seq<char>) -> bool {
    forall|k: int| 0 <= k < text.len() ==> is_header_char(#[trigger] text[k])
}

/// The check a file's media type passes before it is sent as its `Content-Type`: a
/// valid header value, or the error that names that header.
pub fn check_content_type(mime: &str) -> (r: Result<(), VentError>)
    ensures
        r is Ok <==> is_header_value(mime@),
        r matches Err(e) ==> e == (VentError::Headers { which_header: CommonHeaders::ContentType }),
{
    let cs = chars_of(mime);
    let mut i: usize = 0;
    while i < cs.len()
        invariant
            cs@ == mime@,
            i <= cs@.len(),
            forall|k: int| 0 <= k < i ==> is_header_char(#[trigger] cs@[k]),
        decreases cs@.len() - i,
    {
        let c = cs[i];
        if !(c == '\t' || ((c as u32) >= 32 && (c as u32) != 127)) {
            assert(!is_header_char(mime@[i as int]));
            return Err(VentError::Headers { which_header: CommonHeaders::ContentType });
        }
        i = i + 1;
    }
    Ok(())
}

} // verus!
