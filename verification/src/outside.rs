//! The calls into other crates. Each stands behind a contract that is taken
//! on trust: nothing here is proved, and the rest of the library is proved
//! from what these contracts say.

use vstd::prelude::*;
use vstd::utf8::{decode_utf8, valid_utf8};

verus! {

/// A pattern that `regex` could not compile.
#[verifier::external_type_specification]
#[verifier::external_body]
pub struct ExRegexError(regex::Error);

/// Input that `base64` could not decode.
#[verifier::external_type_specification]
#[verifier::external_body]
pub struct ExDecodeError(base64::DecodeError);

/// A document that `serde_json` could not read.
#[verifier::external_type_specification]
#[verifier::external_body]
pub struct ExJsonError(serde_json::Error);

/// The MD5 digest of the UTF-8 bytes of a text, as 32 lower-case hexadecimal
/// digits.
pub uninterp spec fn md5_hex(text: Seq<char>) -> Seq<char>;

/// What the regular expression `pattern` finds in `text`: for each match
/// that does not overlap an earlier one, from left to right, its groups by
/// their number, the whole match being group 0; a group that took no part in
/// the match is absent. Nothing where the pattern cannot be compiled.
pub uninterp spec fn regex_found(pattern: Seq<char>, text: Seq<char>) -> Option<
    Seq<Seq<Option<Seq<char>>>>,
>;

/// The bytes that standard base64 text with padding stands for; nothing for
/// text that is not such base64.
pub uninterp spec fn base64_decoded(input: Seq<u8>) -> Option<Seq<u8>>;

/// The compact JSON text of the member `member` of the JSON document
/// `document`, or of `null` where the document is no object or has no such
/// member; nothing where the document is not JSON.
pub uninterp spec fn json_member(document: Seq<char>, member: Seq<char>) -> Option<Seq<char>>;

/// The upper-case form of a character, which may take several characters.
pub uninterp spec fn upper_case(c: char) -> Seq<char>;

/// The media type that `mime_guess` knows for a file extension, without
/// parameters; the first one where it knows several, none where it knows none
/// or the extension is empty. Upper and lower case make no difference.
pub uninterp spec fn mime_of_extension(extension: Seq<char>) -> Option<Seq<char>>;

/// The text as `textwrap` fills it to `width` columns, with its settings for
/// a plain width: broken into lines, which are joined by line feeds.
pub uninterp spec fn wrapped_text(text: Seq<char>, width: usize) -> Seq<char>;

/// The contents of the groups of one match.
pub open spec fn group_views(groups: Vec<Option<String>>) -> Seq<Option<Seq<char>>> {
    groups@.map_values(
        |group: Option<String>|
            match group {
                Some(text) => Some(text@),
                None => None,
            },
    )
}

/// The contents of the groups of all matches.
pub open spec fn match_views(found: Seq<Vec<Option<String>>>) -> Seq<Seq<Option<Seq<char>>>> {
    found.map_values(|groups: Vec<Option<String>>| group_views(groups))
}

/// `md5::compute` on the bytes of `text`, and the digest's `LowerHex`
/// formatting: the result is the digest in hexadecimal, which depends on the
/// text alone.
#[verifier::external_body]
pub(crate) fn md5_hex_of(text: &str) -> (digest: String)
    ensures
        digest@ == md5_hex(text@),
{
    format!("{:x}", md5::compute(text))
}

/// `regex::Regex::new` and `Regex::captures_iter`, with `Captures::iter` for
/// the groups of each match: the result holds what the pattern finds in the
/// text, which depends on the two alone; the error is that of `Regex::new`.
#[verifier::external_body]
pub(crate) fn regex_captures(pattern: &str, text: &str) -> (result: Result<
    Vec<Vec<Option<String>>>,
    regex::Error,
>)
    ensures
        match result {
            Ok(found) => regex_found(pattern@, text@) == Some(match_views(found@)),
            Err(_) => regex_found(pattern@, text@) is None,
        },
{
    let compiled = regex::Regex::new(pattern)?;
    Ok(
        compiled
            .captures_iter(text)
            .map(|found| found.iter().map(|group| group.map(|m| m.as_str().to_string())).collect())
            .collect(),
    )
}

/// `base64::decode`: the result holds the decoded bytes, which depend on the
/// input alone; the error says that the input is not base64.
#[verifier::external_body]
#[allow(deprecated)]
pub(crate) fn base64_decode(input: &[u8]) -> (result: Result<Vec<u8>, base64::DecodeError>)
    ensures
        match result {
            Ok(bytes) => base64_decoded(input@) == Some(bytes@),
            Err(_) => base64_decoded(input@) is None,
        },
{
    base64::decode(input)
}

/// `serde_json::from_str` into a `Value`, indexing of the value by a member
/// name, and the value's `Display`: the result is the compact JSON text of
/// that member, which depends on the document and the name alone; the error is
/// that of `from_str`.
#[verifier::external_body]
pub(crate) fn json_member_text(document: &str, member: &str) -> (result: Result<
    String,
    serde_json::Error,
>)
    ensures
        match result {
            Ok(text) => json_member(document@, member@) == Some(text@),
            Err(_) => json_member(document@, member@) is None,
        },
{
    let value: serde_json::Value = serde_json::from_str(document)?;
    Ok(value[member].to_string())
}

/// `String::from_utf8`: the text that the bytes encode, where they are valid
/// UTF-8, and nothing where they are not.
#[verifier::external_body]
pub(crate) fn utf8_text(bytes: Vec<u8>) -> (text: Option<String>)
    ensures
        match text {
            Some(decoded) => valid_utf8(bytes@) && decoded@ == decode_utf8(bytes@),
            None => !valid_utf8(bytes@),
        },
{
    match String::from_utf8(bytes) {
        Ok(decoded) => Some(decoded),
        Err(_) => None,
    }
}

/// `char::to_uppercase`, collected into a string: the upper-case form of the
/// character, which depends on the character alone.
#[verifier::external_body]
pub(crate) fn upper_case_of(c: char) -> (upper: String)
    ensures
        upper@ == upper_case(c),
{
    c.to_uppercase().collect()
}

/// `mime_guess::MimeGuess::from_ext`, `MimeGuess::first` and
/// `Mime::essence_str`: the first media type known for the extension, which
/// depends on the extension alone.
#[verifier::external_body]
pub(crate) fn guessed_mime(extension: &str) -> (mime: Option<String>)
    ensures
        match mime {
            Some(mime) => mime_of_extension(extension@) == Some(mime@),
            None => mime_of_extension(extension@) is None,
        },
{
    mime_guess::MimeGuess::from_ext(extension).first().map(|mime| mime.essence_str().to_string())
}

/// `textwrap::fill` with a width: the wrapped text, which depends on the
/// text and the width alone.
#[verifier::external_body]
pub(crate) fn wrapped(text: &str, width: usize) -> (lines: String)
    ensures
        lines@ == wrapped_text(text@, width),
{
    textwrap::fill(text, width)
}

} // verus!
