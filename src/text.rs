use vstd::prelude::*;
use vstd::utf8::{valid_utf8, decode_utf8};

verus! {

/// Where a text or binary asset comes from.
pub enum AssetPath {
    /// A file on disk, read by the caller.
    GlobalPath(String),
    /// Bytes already in memory.
    Binary(Vec<u8>),
    /// Text already in memory.
    Text(String),
}

#[derive(Debug, PartialEq, Eq, Structural)]
pub enum TextError {
    /// The bytes are not valid UTF-8.
    NotUtf8,
}

/// Relies on std's String::from_utf8: it succeeds exactly on valid UTF-8 and
/// then holds the decoded characters.
#[verifier::external_body]
fn string_from_utf8(bytes: Vec<u8>) -> (r: Option<String>)
    ensures
        match r {
            Some(s) => valid_utf8(bytes@) && s@ == decode_utf8(bytes@),
            None => !valid_utf8(bytes@),
        },
{
    String::from_utf8(bytes).ok()
}

/// The text that `bytes` encode as UTF-8.
pub fn decode_text(bytes: Vec<u8>) -> (r: Result<String, TextError>)
    ensures
        match r {
            Ok(s) => valid_utf8(bytes@) && s@ == decode_utf8(bytes@),
            Err(e) => !valid_utf8(bytes@) && e == TextError::NotUtf8,
        },
{
    match string_from_utf8(bytes) {
        Some(s) => Ok(s),
        None => Err(TextError::NotUtf8),
    }
}

/// Text of an asset held in memory: inline text as it is, bytes decoded as
/// UTF-8. `None` for a file path, whose bytes the caller reads and hands to
/// `decode_text`, so that all three sources decode alike.
pub fn inline_text(path: &AssetPath) -> (r: Option<Result<String, TextError>>)
    ensures
        match path {
            AssetPath::GlobalPath(_) => r is None,
            AssetPath::Binary(bytes) => match r {
                Some(Ok(s)) => valid_utf8(bytes@) && s@ == decode_utf8(bytes@),
                Some(Err(e)) => !valid_utf8(bytes@) && e == TextError::NotUtf8,
                None => false,
            },
            AssetPath::Text(text) => match r {
                Some(Ok(s)) => s@ == text@,
                _ => false,
            },
        },
{
    match path {
        AssetPath::GlobalPath(_) => None,
        AssetPath::Binary(bytes) => Some(decode_text(bytes.clone())),
        AssetPath::Text(text) => Some(Ok(text.clone())),
    }
}

} // verus!
