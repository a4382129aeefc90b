//! Reading the generation worker's reply: the body is parsed as JSON and
//! the meme's fields are taken from a nested `data` object, from the meme
//! the body was read as by the host (a complete meme), or from the body's
//! top level with alternative keys.

use vstd::prelude::*;
use crate::generation::ReplyFields;
use crate::model::MemeData;
use crate::text::push_text;

verus! {

/// The kind of a JSON value.
#[derive(Clone, Copy, Debug, PartialEq, Eq, Structural)]
pub enum JsonKind {
    Null,
    Bool,
    Number,
    Text,
    List,
    Object,
}

/// The error `serde_json` reports on a body that is not JSON, none for JSON.
pub uninterp spec fn json_parse_error(body: Seq<char>) -> Option<Seq<char>>;

/// The kind of the value at a JSON pointer of a JSON body, none when the
/// body is not JSON or has no value there.
pub uninterp spec fn json_kind_at(body: Seq<char>, pointer: Seq<char>) -> Option<JsonKind>;

/// The text at a JSON pointer of a JSON body, none when there is no text there.
pub uninterp spec fn json_text_at(body: Seq<char>, pointer: Seq<char>) -> Option<Seq<char>>;

/// The unsigned 64-bit integer at a JSON pointer of a JSON body, none when
/// there is no such number there.
pub uninterp spec fn json_u64_at(body: Seq<char>, pointer: Seq<char>) -> Option<u64>;

/// The view of an optional text.
pub open spec fn opt_view(o: Option<String>) -> Option<Seq<char>> {
    match o {
        Some(s) => Some(s@),
        None => None,
    }
}

/// Parses `body` as JSON and gives the error message when that fails.
///
/// Calls `serde_json::from_str::<serde_json::Value>`; the message is the
/// error's `Display` text. Which bodies parse and the message's wording are
/// `serde_json`'s; the contract names them.
#[verifier::external_body]
fn json_check(body: &str) -> (r: Option<String>)
    ensures
        opt_view(r) == json_parse_error(body@),
{
    match serde_json::from_str::<serde_json::Value>(body) {
        Ok(_) => None,
        Err(e) => Some(e.to_string()),
    }
}

/// The kind of the value at a JSON pointer of a JSON body.
///
/// Calls `serde_json::from_str::<serde_json::Value>` and `Value::pointer`,
/// and tells the value's variant.
#[verifier::external_body]
fn json_kind(body: &str, pointer: &str) -> (r: Option<JsonKind>)
    ensures
        r == json_kind_at(body@, pointer@),
{
    let v: serde_json::Value = match serde_json::from_str(body) {
        Ok(v) => v,
        Err(_) => return None,
    };
    match v.pointer(pointer) {
        Some(serde_json::Value::Null) => Some(JsonKind::Null),
        Some(serde_json::Value::Bool(_)) => Some(JsonKind::Bool),
        Some(serde_json::Value::Number(_)) => Some(JsonKind::Number),
        Some(serde_json::Value::String(_)) => Some(JsonKind::Text),
        Some(serde_json::Value::Array(_)) => Some(JsonKind::List),
        Some(serde_json::Value::Object(_)) => Some(JsonKind::Object),
        None => None,
    }
}

/// The text at a JSON pointer of a JSON body.
///
/// Calls `serde_json::from_str::<serde_json::Value>` and `Value::pointer`,
/// and keeps the value when it is a string.
#[verifier::external_body]
fn json_text(body: &str, pointer: &str) -> (r: Option<String>)
    ensures
        opt_view(r) == json_text_at(body@, pointer@),
{
    let v: serde_json::Value = match serde_json::from_str(body) {
        Ok(v) => v,
        Err(_) => return None,
    };
    match v.pointer(pointer) {
        Some(serde_json::Value::String(s)) => Some(s.clone()),
        _ => None,
    }
}

/// The unsigned 64-bit integer at a JSON pointer of a JSON body.
///
/// Calls `serde_json::from_str::<serde_json::Value>`, `Value::pointer` and
/// `Value::as_u64`.
#[verifier::external_body]
fn json_u64(body: &str, pointer: &str) -> (r: Option<u64>)
    ensures
        r == json_u64_at(body@, pointer@),
{
    let v: serde_json::Value = match serde_json::from_str(body) {
        Ok(v) => v,
        Err(_) => return None,
    };
    match v.pointer(pointer) {
        Some(x) => x.as_u64(),
        None => None,
    }
}

/// Where the meme's fields are read from in a reply.
#[derive(Clone, Copy, Debug, PartialEq, Eq, Structural)]
pub enum ReplyShape {
    /// A `data` object at the top level holds them.
    Nested,
    /// The body is itself a complete meme.
    Whole,
    /// The top level holds them, under alternative keys.
    Loose,
}

/// Where a JSON reply's fields are read from: a top-level `data` value
/// first, then the complete meme the body was read as (`whole`), then the
/// top level.
pub open spec fn reply_shape(body: Seq<char>, whole: bool) -> ReplyShape {
    if json_kind_at(body, "/data"@).is_some() {
        ReplyShape::Nested
    } else if whole {
        ReplyShape::Whole
    } else {
        ReplyShape::Loose
    }
}

/// The pointer of the first of two keys present, or of the last one.
pub open spec fn first_present(body: Seq<char>, a: Seq<char>, b: Seq<char>) -> Seq<char> {
    if json_kind_at(body, a).is_some() { a } else { b }
}

/// The pointer of the first of three keys present, or of the last one.
pub open spec fn first_present3(body: Seq<char>, a: Seq<char>, b: Seq<char>, c: Seq<char>) -> Seq<char> {
    if json_kind_at(body, a).is_some() { a } else { first_present(body, b, c) }
}

/// The pointer the processing time (a float the host reads) is taken from
/// when the body is not taken as a complete meme.
pub open spec fn processing_time_pointer(body: Seq<char>) -> Seq<char> {
    if json_kind_at(body, "/data"@).is_some() { "/data/metadata/processing_time"@ } else { "/processing_time"@ }
}

/// The fields of a complete meme: every one of them given.
pub open spec fn whole_fields_ok(m: MemeData, f: ReplyFields) -> bool {
    &&& opt_view(f.prompt) == Some(m.prompt@)
    &&& f.name == m.name
    &&& f.caption == m.caption
    &&& opt_view(f.image_url) == Some(m.image_url@)
    &&& opt_view(f.image_filename) == Some(m.image_filename@)
    &&& opt_view(f.image_format) == Some(m.image_format@)
    &&& f.processing_time_bits == Some(m.metadata.processing_time_bits)
    &&& f.timestamp == Some(m.metadata.timestamp)
    &&& f.file_size_bytes == Some(m.metadata.file_size_bytes)
    &&& opt_view(f.service) == Some(m.metadata.service@)
}

/// The fields of a nested reply: the `data` object's texts and its
/// `metadata` object's numbers and service (the processing time as read by
/// the host); no name or caption.
pub open spec fn nested_fields_ok(body: Seq<char>, processing_time_bits: Option<u64>, f: ReplyFields) -> bool {
    &&& opt_view(f.prompt) == json_text_at(body, "/data/prompt"@)
    &&& f.name is None
    &&& f.caption is None
    &&& opt_view(f.image_url) == json_text_at(body, "/data/image_url"@)
    &&& opt_view(f.image_filename) == json_text_at(body, "/data/image_filename"@)
    &&& opt_view(f.image_format) == json_text_at(body, "/data/image_format"@)
    &&& f.processing_time_bits == processing_time_bits
    &&& f.timestamp == json_u64_at(body, "/data/metadata/timestamp"@)
    &&& f.file_size_bytes == json_u64_at(body, "/data/metadata/file_size_bytes"@)
    &&& opt_view(f.service) == json_text_at(body, "/data/metadata/service"@)
}

/// The fields read from the top level, where the image URL may be under
/// `image_url`, `url` or `image`, the file name under `image_filename` or
/// `filename`, the format under `image_format` or `format`, and the file
/// size under `file_size_bytes` or `file_size` (the first key present
/// counts); no name or caption.
pub open spec fn loose_fields_ok(body: Seq<char>, processing_time_bits: Option<u64>, f: ReplyFields) -> bool {
    &&& opt_view(f.prompt) == json_text_at(body, "/prompt"@)
    &&& f.name is None
    &&& f.caption is None
    &&& opt_view(f.image_url) == json_text_at(body, first_present3(body, "/image_url"@, "/url"@, "/image"@))
    &&& opt_view(f.image_filename) == json_text_at(body, first_present(body, "/image_filename"@, "/filename"@))
    &&& opt_view(f.image_format) == json_text_at(body, first_present(body, "/image_format"@, "/format"@))
    &&& f.processing_time_bits == processing_time_bits
    &&& f.timestamp == json_u64_at(body, "/timestamp"@)
    &&& f.file_size_bytes == json_u64_at(body, first_present(body, "/file_size_bytes"@, "/file_size"@))
    &&& opt_view(f.service) == json_text_at(body, "/service"@)
}

/// The fields of a JSON reply, by its shape.
pub open spec fn reply_fields_ok(
    body: Seq<char>,
    whole: Option<MemeData>,
    processing_time_bits: Option<u64>,
    f: ReplyFields,
) -> bool {
    match reply_shape(body, whole is Some) {
        ReplyShape::Nested => nested_fields_ok(body, processing_time_bits, f),
        ReplyShape::Whole => whole_fields_ok(whole.unwrap(), f),
        ReplyShape::Loose => loose_fields_ok(body, processing_time_bits, f),
    }
}

/// Where a JSON reply's fields are read from, given whether the body was
/// read as a complete meme.
pub fn shape_of_reply(body: &str, whole: bool) -> (r: ReplyShape)
    ensures
        r == reply_shape(body@, whole),
{
    if json_kind(body, "/data").is_some() {
        ReplyShape::Nested
    } else if whole {
        ReplyShape::Whole
    } else {
        ReplyShape::Loose
    }
}

/// The first of two pointers with a value, or the second.
fn pick2<'a>(body: &str, a: &'a str, b: &'a str) -> (r: &'a str)
    ensures
        r@ == first_present(body@, a@, b@),
{
    if json_kind(body, a).is_some() { a } else { b }
}

/// The first of three pointers with a value, or the third.
fn pick3<'a>(body: &str, a: &'a str, b: &'a str, c: &'a str) -> (r: &'a str)
    ensures
        r@ == first_present3(body@, a@, b@, c@),
{
    if json_kind(body, a).is_some() { a } else { pick2(body, b, c) }
}

/// The pointer the processing time of a reply is read at when the body is
/// not taken as a complete meme; the host reads the float there.
pub fn reply_time_pointer(body: &str) -> (r: &'static str)
    ensures
        r@ == processing_time_pointer(body@),
{
    if json_kind(body, "/data").is_some() {
        "/data/metadata/processing_time"
    } else {
        "/processing_time"
    }
}

/// The fields of a complete meme.
pub fn fields_of_meme(m: MemeData) -> (f: ReplyFields)
    ensures
        whole_fields_ok(m, f),
{
    ReplyFields {
        prompt: Some(m.prompt),
        name: m.name,
        caption: m.caption,
        image_url: Some(m.image_url),
        image_filename: Some(m.image_filename),
        image_format: Some(m.image_format),
        processing_time_bits: Some(m.metadata.processing_time_bits),
        timestamp: Some(m.metadata.timestamp),
        file_size_bytes: Some(m.metadata.file_size_bytes),
        service: Some(m.metadata.service),
    }
}

/// Reads the fields of the worker's reply `body`. The host hands in the
/// meme the body reads as when it is a complete meme (`whole`), and the
/// processing time it read at `reply_time_pointer`. A body that is not
/// JSON is refused with "Invalid JSON response: " and the parser's message.
pub fn reply_fields(body: &str, whole: Option<MemeData>, processing_time_bits: Option<u64>) -> (r: Result<
    ReplyFields,
    String,
>)
    ensures
        match json_parse_error(body@) {
            Some(msg) => r matches Err(e) && e@ == "Invalid JSON response: "@ + msg,
            None => r matches Ok(f) && reply_fields_ok(body@, whole, processing_time_bits, f),
        },
{
    match json_check(body) {
        Some(msg) => {
            let mut e = String::from_str("Invalid JSON response: ");
            push_text(&mut e, msg.as_str());
            return Err(e);
        },
        None => {},
    }
    if json_kind(body, "/data").is_some() {
        return Ok(ReplyFields {
            prompt: json_text(body, "/data/prompt"),
            name: None,
            caption: None,
            image_url: json_text(body, "/data/image_url"),
            image_filename: json_text(body, "/data/image_filename"),
            image_format: json_text(body, "/data/image_format"),
            processing_time_bits,
            timestamp: json_u64(body, "/data/metadata/timestamp"),
            file_size_bytes: json_u64(body, "/data/metadata/file_size_bytes"),
            service: json_text(body, "/data/metadata/service"),
        });
    }
    match whole {
        Some(m) => Ok(fields_of_meme(m)),
        None => Ok(ReplyFields {
            prompt: json_text(body, "/prompt"),
            name: None,
            caption: None,
            image_url: json_text(body, pick3(body, "/image_url", "/url", "/image")),
            image_filename: json_text(body, pick2(body, "/image_filename", "/filename")),
            image_format: json_text(body, pick2(body, "/image_format", "/format")),
            processing_time_bits,
            timestamp: json_u64(body, "/timestamp"),
            file_size_bytes: json_u64(body, pick2(body, "/file_size_bytes", "/file_size")),
            service: json_text(body, "/service"),
        }),
    }
}

} // verus!
