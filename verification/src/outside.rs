//! What other crates compute for this library.
//!
//! Nothing in this file is proved. Each function hands its arguments to one function of
//! another crate, or of std, and its contract says what that function is taken to return.

use crate::json::{Json, JsonV};
use serde_json::Value;
use vstd::prelude::*;
use vstd::utf8::{encode_utf8, is_char_boundary};

verus! {

/// [`String::push`] appends the one character.
pub assume_specification[ String::push ](s: &mut String, ch: char)
    ensures
        final(s)@ == old(s)@.push(ch),
;

/// [`String::replace_range`] on the range from `start` up to `end`: the bytes before the
/// range and those behind it stay, and the bytes of `with` stand between them. Both
/// offsets must lie between two characters of the buffer, where std would panic
/// otherwise.
#[verifier::external_body]
pub(crate) fn replace_range(buffer: &mut String, start: usize, end: usize, with: &str)
    requires
        start <= end <= encode_utf8(old(buffer)@).len(),
        is_char_boundary(encode_utf8(old(buffer)@), start as int),
        is_char_boundary(encode_utf8(old(buffer)@), end as int),
    ensures
        encode_utf8(final(buffer)@) == encode_utf8(old(buffer)@).subrange(0, start as int)
            + encode_utf8(with@) + encode_utf8(old(buffer)@).subrange(
            end as int,
            encode_utf8(old(buffer)@).len() as int,
        ),
{
    buffer.replace_range(start..end, with)
}

/// What `urlencoding::decode` makes of `text`; nothing where the decoded bytes are no
/// UTF-8.
pub uninterp spec fn percent_decoded(text: Seq<char>) -> Option<Seq<char>>;

/// `urlencoding::decode`: `text` with each `%` and two hexadecimal digits replaced by
/// the byte they stand for.
#[verifier::external_body]
pub(crate) fn percent_decode(text: &str) -> (r: Option<String>)
    ensures
        match r {
            Some(decoded) => percent_decoded(text@) == Some(decoded@),
            None => percent_decoded(text@) is None,
        },
{
    match urlencoding::decode(text) {
        Ok(decoded) => Some(decoded.into_owned()),
        Err(_) => None,
    }
}

/// What `sanitize_filename::sanitize_with_options` makes of `name`, with the rules for
/// Windows where `windows` is set, cut to 255 bytes, and nothing put in place of what it
/// takes out.
pub uninterp spec fn sanitized(name: Seq<char>, windows: bool) -> Seq<char>;

/// `sanitize_filename::sanitize_with_options`, with the crate's own options but for
/// `windows`: the name without the characters that no file name may hold.
#[verifier::external_body]
pub(crate) fn sanitize(name: &str, windows: bool) -> (r: String)
    ensures
        r@ == sanitized(name@, windows),
{
    let options = sanitize_filename::Options { windows, ..Default::default() };
    sanitize_filename::sanitize_with_options(name, options)
}

/// What `str::to_lowercase` makes of `text`.
pub uninterp spec fn lowercased(text: Seq<char>) -> Seq<char>;

/// `str::to_lowercase`: the lowercase equivalent of `text`.
#[verifier::external_body]
pub(crate) fn to_lowercase(text: &str) -> (r: String)
    ensures
        r@ == lowercased(text@),
{
    text.to_lowercase()
}

/// Whether `char::is_whitespace` holds of `c`.
pub uninterp spec fn whitespace(c: char) -> bool;

/// `char::is_whitespace`: whether `c` has the Unicode property `White_Space`.
#[verifier::external_body]
pub(crate) fn is_whitespace(c: char) -> (r: bool)
    ensures
        r == whitespace(c),
{
    c.is_whitespace()
}

/// The hash that a fresh `DefaultHasher` gives for `text`.
pub uninterp spec fn text_hash(text: Seq<char>) -> u64;

/// `BuildHasher::hash_one` of a `BuildHasherDefault<DefaultHasher>`: the hash that a
/// fresh `DefaultHasher` gives for `value`. Such a hasher has no seed of its own: std
/// says that all of them that are made new are the same, so one text has one hash.
#[verifier::external_body]
pub(crate) fn hash(value: &str) -> (r: u64)
    ensures
        r == text_hash(value@),
{
    let fresh = std::hash::BuildHasherDefault::<std::hash::DefaultHasher>::new();
    std::hash::BuildHasher::hash_one(&fresh, value)
}

/// What the standard base64 alphabet, with padding, makes of `bytes`.
pub uninterp spec fn base64_text(bytes: Seq<u8>) -> Seq<char>;

/// `base64::Engine::encode` of the engine `BASE64_STANDARD`.
#[verifier::external_body]
pub(crate) fn base64_encode(bytes: &[u8]) -> (r: String)
    ensures
        r@ == base64_text(bytes@),
{
    base64::Engine::encode(&base64::prelude::BASE64_STANDARD, bytes)
}

/// The MIME type that `infer::get` finds for a file that begins with `bytes`.
pub uninterp spec fn sniffed_mime(bytes: Seq<u8>) -> Option<Seq<char>>;

/// `infer::get` and the MIME type of what it found: the type of a file, told by its
/// first bytes.
#[verifier::external_body]
pub(crate) fn sniff_mime(bytes: &[u8]) -> (r: Option<&'static str>)
    ensures
        match r {
            Some(mime) => sniffed_mime(bytes@) == Some(mime@),
            None => sniffed_mime(bytes@) is None,
        },
{
    infer::get(bytes).map(|kind| kind.mime_type())
}

/// The file extension that `mime2ext::mime2ext` picks for the MIME type `mime`.
pub uninterp spec fn mime_extension(mime: Seq<char>) -> Option<Seq<char>>;

/// `mime2ext::mime2ext`: a file extension that suits the MIME type.
#[verifier::external_body]
pub(crate) fn extension_of_mime(mime: &str) -> (r: Option<&'static str>)
    ensures
        match r {
            Some(extension) => mime_extension(mime@) == Some(extension@),
            None => mime_extension(mime@) is None,
        },
{
    mime2ext::mime2ext(mime)
}

/// The matches of the regular expression `pattern` in `haystack`, from the left, none
/// reaching into another: of each match its groups, the whole match first, each group
/// by the byte offsets at which it starts and ends, or nothing where it took no part.
/// Nothing at all where `pattern` is no regular expression.
pub uninterp spec fn regex_found(pattern: Seq<char>, haystack: Seq<char>) -> Option<
    Seq<Seq<Option<(usize, usize)>>>,
>;

/// The groups of each match of `found`.
pub open spec fn groups_of(found: Seq<Vec<Option<(usize, usize)>>>) -> Seq<
    Seq<Option<(usize, usize)>>,
> {
    Seq::new(found.len(), |i: int| found[i]@)
}

/// `regex::Regex::new` and `Regex::captures_iter`: all matches of `pattern` in
/// `haystack`. The crate promises of each match that its first group is there, and is
/// the whole match.
#[verifier::external_body]
pub(crate) fn captures_all(pattern: &str, haystack: &str) -> (r: Option<
    Vec<Vec<Option<(usize, usize)>>>,
>)
    ensures
        match r {
            Some(found) => regex_found(pattern@, haystack@) == Some(groups_of(found@))
                && forall|i: int|
                0 <= i < found@.len() ==> (#[trigger] found@[i])@.len() > 0 && found@[i]@[0] is Some,
            None => regex_found(pattern@, haystack@) is None,
        },
{
    match regex::Regex::new(pattern) {
        Ok(re) => Some(
            re.captures_iter(haystack).map(
                |found| found.iter().map(|group| group.map(|m| (m.start(), m.end()))).collect(),
            ).collect(),
        ),
        Err(_) => None,
    }
}

/// Whether `start` and `end` are the ends of a part of `bytes` that holds whole
/// characters.
pub open spec fn sliceable(bytes: Seq<u8>, start: usize, end: usize) -> bool {
    start <= end <= bytes.len() && is_char_boundary(bytes, start as int) && is_char_boundary(
        bytes,
        end as int,
    )
}

/// `str::get` on the range from `start` up to `end`: the part of `text` between the two
/// byte offsets, and nothing where an offset lies outside `text` or inside a character,
/// or where `end` comes before `start`.
#[verifier::external_body]
pub(crate) fn slice_between(text: &str, start: usize, end: usize) -> (r: Option<&str>)
    ensures
        match r {
            Some(part) => sliceable(encode_utf8(text@), start, end) && encode_utf8(part@)
                == encode_utf8(text@).subrange(start as int, end as int),
            None => !sliceable(encode_utf8(text@), start, end),
        },
{
    text.get(start..end)
}

/// A document of serde_json.
#[verifier::external_type_specification]
#[verifier::external_body]
pub struct ExValue(Value);

/// The document that `serde_json::from_str` reads from `text`; nothing where `text` is
/// no JSON.
pub uninterp spec fn json_read(text: Seq<char>) -> Option<JsonV>;

/// Turns a document of serde_json into one of this library, part by part; a number is
/// kept as it prints.
#[verifier::external_body]
fn tree_of(value: Value) -> Json {
    match value {
        Value::Null => Json::Null,
        Value::Bool(b) => Json::Bool(b),
        Value::Number(n) => Json::Number(n.to_string()),
        Value::String(s) => Json::Text(s),
        Value::Array(items) => Json::Array(items.into_iter().map(tree_of).collect()),
        Value::Object(fields) => Json::Object(
            fields.into_iter().map(|(name, value)| (name, tree_of(value))).collect(),
        ),
    }
}

/// `serde_json::from_str`: the document that `text` holds.
#[verifier::external_body]
pub(crate) fn read_json(text: &str) -> (r: Option<Json>)
    ensures
        match r {
            Some(tree) => json_read(text@) == Some(tree@),
            None => json_read(text@) is None,
        },
{
    match serde_json::from_str::<Value>(text) {
        Ok(value) => Some(tree_of(value)),
        Err(_) => None,
    }
}

/// The text that `serde_json::to_string` writes for `tree`; nothing where a number of
/// `tree` is none that serde_json can read.
pub uninterp spec fn json_written(tree: JsonV) -> Option<Seq<char>>;

/// Turns a document of this library into one of serde_json, part by part. Nothing where
/// a number is none that serde_json can read. Of two fields with one name the later one
/// stays.
#[verifier::external_body]
fn value_of(tree: &Json) -> Option<Value> {
    Some(match tree {
        Json::Null => Value::Null,
        Json::Bool(b) => Value::Bool(*b),
        Json::Number(n) => Value::Number(n.parse().ok()?),
        Json::Text(s) => Value::String(s.clone()),
        Json::Array(items) => Value::Array(items.iter().map(value_of).collect::<Option<_>>()?),
        Json::Object(fields) => Value::Object(
            fields.iter().map(|f| Some((f.0.clone(), value_of(&f.1)?))).collect::<Option<_>>()?,
        ),
    })
}

/// `serde_json::to_string`: `tree` as JSON text.
#[verifier::external_body]
pub(crate) fn write_json(tree: &Json) -> (r: Option<String>)
    ensures
        match r {
            Some(text) => json_written(tree@) == Some(text@),
            None => json_written(tree@) is None,
        },
{
    match value_of(tree) {
        Some(value) => serde_json::to_string(&value).ok(),
        None => None,
    }
}

/// `String::from_utf8`: the text that `bytes` encode, and nothing where they encode
/// none.
#[verifier::external_body]
pub(crate) fn text_of_bytes(bytes: Vec<u8>) -> (r: Option<String>)
    ensures
        match r {
            Some(text) => vstd::utf8::valid_utf8(bytes@) && encode_utf8(text@) == bytes@,
            None => !vstd::utf8::valid_utf8(bytes@),
        },
{
    String::from_utf8(bytes).ok()
}

} // verus!
