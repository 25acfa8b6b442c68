//! The functions of the `regex` and `serde_json` crates and of the standard
//! library that the crate relies on without proof, with the contracts
//! under which everything else is verified. Each contract restates what
//! the function's documentation promises, and gives a name to what the
//! function computes where that is too long to spell out.

use std::hash::{Hash, Hasher};
use vstd::prelude::*;
use vstd::utf8::*;

verus! {

/// What the error of `regex::Regex::new` displays for `pattern`; `None`
/// where the pattern compiles.
pub uninterp spec fn regex_error(pattern: Seq<char>) -> Option<Seq<char>>;

/// Whether `pattern` is a regular expression that `regex::Regex::new`
/// compiles.
pub open spec fn regex_valid(pattern: Seq<char>) -> bool {
    regex_error(pattern) is None
}

/// What the error of `regex::Regex::new` displays for a `pattern` that
/// does not compile.
pub open spec fn regex_error_text(pattern: Seq<char>) -> Seq<char> {
    regex_error(pattern)->0
}

/// Whether the regular expression `pattern` has a match somewhere in
/// `text`, as `regex::Regex::is_match` reports it.
pub uninterp spec fn regex_matches(pattern: Seq<char>, text: Seq<char>) -> bool;

/// `text` with every non-overlapping match of the regular expression
/// `pattern` replaced by the expansion of `replacement`, as
/// `regex::Regex::replace_all` returns it.
pub uninterp spec fn regex_replaced(
    pattern: Seq<char>,
    text: Seq<char>,
    replacement: Seq<char>,
) -> Seq<char>;

/// The string value of the member `key` of the JSON object that `text`
/// holds; `None` when `text` is not JSON, is no object, has no such
/// member, or the member is no string.
pub uninterp spec fn json_string_member(text: Seq<char>, key: Seq<char>) -> Option<Seq<char>>;

/// `text` as a JSON string literal: in double quotes, with the escapes that
/// `serde_json` writes.
pub uninterp spec fn json_string(text: Seq<char>) -> Seq<char>;

/// The file name of the path `path` without its extension, as
/// `std::path::Path::file_stem` returns it; `None` where the path has no
/// file name or the stem is no valid Unicode.
pub uninterp spec fn path_file_stem(path: Seq<char>) -> Option<Seq<char>>;

/// The last component of the path `path`, as `std::path::Path::file_name`
/// returns it; `None` where the path ends in `..` or has no component.
pub uninterp spec fn path_file_name(path: Seq<char>) -> Option<Seq<char>>;

/// The lower-case form of `text`, as `str::to_lowercase` returns it.
pub uninterp spec fn lowercase(text: Seq<char>) -> Seq<char>;

/// The hash of `text` under a `DefaultHasher` that was just created. All
/// such hashers of one release of the standard library hash alike.
pub uninterp spec fn text_hash(text: Seq<char>) -> u64;

/// Whether `c` is alphabetic or numeric in the sense of Unicode, as
/// `char::is_alphanumeric` reports it.
pub uninterp spec fn alphanumeric(c: char) -> bool;

/// What `String::from_utf8_lossy` makes of `bytes`: the text they encode,
/// with each malformed sequence replaced by U+FFFD.
pub uninterp spec fn lossy_text(bytes: Seq<u8>) -> Seq<char>;

/// What `Utf8Error` displays for the malformed input `bytes`.
pub uninterp spec fn utf8_error_text(bytes: Seq<u8>) -> Seq<char>;

/// `String::push` appends exactly one character.
pub assume_specification[ String::push ](s: &mut String, c: char)
    ensures
        final(s)@ == old(s)@.push(c),
;

/// `char::is_alphanumeric` is a function of the character alone.
pub assume_specification[ char::is_alphanumeric ](c: char) -> (r: bool)
    ensures
        r == alphanumeric(c),
;

/// `core::str::from_utf8`: succeeds exactly on well-formed UTF-8 and then
/// yields the encoded characters; otherwise yields the text that the
/// standard library's error displays.
#[verifier::external_body]
pub(crate) fn utf8_text(bytes: &[u8]) -> (r: Result<String, String>)
    ensures
        match r {
            Ok(s) => valid_utf8(bytes@) && s@ == decode_utf8(bytes@),
            Err(m) => !valid_utf8(bytes@) && m@ == utf8_error_text(bytes@),
        },
{
    match core::str::from_utf8(bytes) {
        Ok(s) => Ok(s.to_string()),
        Err(e) => Err(e.to_string()),
    }
}

/// `String::from_utf8_lossy`: on well-formed UTF-8 the encoded characters.
#[verifier::external_body]
pub(crate) fn utf8_lossy(bytes: &[u8]) -> (s: String)
    ensures
        s@ == lossy_text(bytes@),
        valid_utf8(bytes@) ==> s@ == decode_utf8(bytes@),
{
    String::from_utf8_lossy(bytes).to_string()
}

/// `regex::Regex::new`: `None` when the pattern compiles, else what the
/// error displays.
#[verifier::external_body]
pub(crate) fn pattern_error(pattern: &str) -> (r: Option<String>)
    ensures
        match r {
            None => regex_error(pattern@) is None,
            Some(m) => regex_error(pattern@) == Some(m@),
        },
{
    match regex::Regex::new(pattern) {
        Ok(_) => None,
        Err(e) => Some(e.to_string()),
    }
}

/// `regex::Regex::is_match` on the compiled pattern: true if and only if
/// the expression matches anywhere in `text`; `None` when the pattern does
/// not compile.
#[verifier::external_body]
pub(crate) fn pattern_matches(pattern: &str, text: &str) -> (r: Option<bool>)
    ensures
        r == (if regex_valid(pattern@) {
            Some(regex_matches(pattern@, text@))
        } else {
            None
        }),
{
    match regex::Regex::new(pattern) {
        Ok(re) => Some(re.is_match(text)),
        Err(_) => None,
    }
}

/// `regex::Regex::replace_all` on the compiled pattern; `None` when the
/// pattern does not compile.
#[verifier::external_body]
pub(crate) fn pattern_replace_all(pattern: &str, text: &str, replacement: &str) -> (r: Option<
    String,
>)
    ensures
        match r {
            Some(s) => regex_valid(pattern@) && s@ == regex_replaced(pattern@, text@, replacement@),
            None => !regex_valid(pattern@),
        },
{
    match regex::Regex::new(pattern) {
        Ok(re) => Some(re.replace_all(text, replacement).into_owned()),
        Err(_) => None,
    }
}

/// `serde_json::from_str` into a `Value`, then `Value::get` and
/// `Value::as_str`: the string value of one member of a JSON object.
#[verifier::external_body]
pub(crate) fn json_member_text(text: &str, key: &str) -> (r: Option<String>)
    ensures
        match r {
            Some(s) => json_string_member(text@, key@) == Some(s@),
            None => json_string_member(text@, key@) is None,
        },
{
    match serde_json::from_str::<serde_json::Value>(text) {
        Ok(value) => value.get(key).and_then(|v| v.as_str()).map(|s| s.to_string()),
        Err(_) => None,
    }
}

/// The display of `serde_json::Value::String`: the text as a JSON string
/// literal.
#[verifier::external_body]
pub(crate) fn json_quote(text: &str) -> (s: String)
    ensures
        s@ == json_string(text@),
{
    serde_json::Value::String(text.to_string()).to_string()
}

/// `str::to_lowercase`.
#[verifier::external_body]
pub(crate) fn to_lowercase(text: &str) -> (s: String)
    ensures
        s@ == lowercase(text@),
{
    text.to_lowercase()
}

/// Feeds `text` to a new `DefaultHasher` and returns what it finishes with.
#[verifier::external_body]
pub(crate) fn hash_string(text: &str) -> (h: u64)
    ensures
        h == text_hash(text@),
{
    let mut hasher = std::collections::hash_map::DefaultHasher::new();
    text.hash(&mut hasher);
    hasher.finish()
}

/// `std::path::Path::file_stem` of the path that `path` spells.
#[verifier::external_body]
pub(crate) fn file_stem_of(path: &str) -> (r: Option<String>)
    ensures
        match r {
            Some(s) => path_file_stem(path@) == Some(s@),
            None => path_file_stem(path@) is None,
        },
{
    std::path::Path::new(path).file_stem().and_then(|s| s.to_str()).map(|s| s.to_string())
}

/// `std::path::Path::file_name` of the path that `path` spells.
#[verifier::external_body]
pub(crate) fn file_name_of(path: &str) -> (r: Option<String>)
    ensures
        match r {
            Some(s) => path_file_name(path@) == Some(s@),
            None => path_file_name(path@) is None,
        },
{
    std::path::Path::new(path).file_name().and_then(|s| s.to_str()).map(|s| s.to_string())
}

} // verus!
