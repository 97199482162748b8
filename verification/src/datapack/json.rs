//! The JSON values that datapack files hold, as plain values, and the
//! readings of tag files, pack metadata and raw JSON resources over them.
//!
//! Objects keep their entries in key order with each key once, as the JSON
//! decoder hands them over; numbers keep their decimal text next to their
//! integer values.
use vstd::prelude::*;

use crate::datapack::resources::{JsonKind, ResourceFields, check_json_resource, json_resource_problem};
use crate::datapack::tags::{TagDefinition, TagValue, tag_entry_of, tag_problem_error, tag_value_from_entry, value_id, value_required};
use crate::datapack::{DataPackError, DataPackLoader, LoadedDataPack, PackFormatField, metadata_error};
use crate::text::{chars_eq_str, str_chars, string_from_str};

verus! {

/// A JSON number: its decimal text, and its value where it is an integer
/// in the range of `i64` or of `u64`.
#[derive(Clone, Debug, PartialEq, Eq)]
pub struct JsonNumber {
    pub text: String,
    pub as_i64: Option<i64>,
    pub as_u64: Option<u64>,
}

/// A JSON value.
#[derive(Debug)]
pub enum Json {
    Null,
    Bool(bool),
    Number(JsonNumber),
    Text(String),
    Array(Vec<Json>),
    Object(Vec<(String, Json)>),
}

/// The value of the first entry with key `key`.
pub open spec fn entry_lookup(entries: Seq<(String, Json)>, key: Seq<char>) -> Option<Json>
    decreases entries.len(),
{
    if entries.len() == 0 {
        None
    } else if entries[0].0@ == key {
        Some(entries[0].1)
    } else {
        entry_lookup(entries.drop_first(), key)
    }
}

/// The field `key` of an object; other values have no fields.
pub open spec fn json_get(j: Json, key: Seq<char>) -> Option<Json> {
    match j {
        Json::Object(entries) => entry_lookup(entries@, key),
        _ => None,
    }
}

/// The kind of a JSON value.
pub open spec fn kind_spec(j: Json) -> JsonKind {
    match j {
        Json::Null => JsonKind::Null,
        Json::Bool(_) => JsonKind::Bool,
        Json::Number(_) => JsonKind::Number,
        Json::Text(_) => JsonKind::Text,
        Json::Array(_) => JsonKind::Array,
        Json::Object(_) => JsonKind::Object,
    }
}

/// The text of a string value.
pub open spec fn str_of(j: Option<Json>) -> Option<Seq<char>> {
    match j {
        Some(Json::Text(s)) => Some(s@),
        _ => None,
    }
}

/// The value of a boolean.
pub open spec fn bool_of(j: Option<Json>) -> Option<bool> {
    match j {
        Some(Json::Bool(b)) => Some(b),
        _ => None,
    }
}

/// The value of an integer number in the range of `i64`.
pub open spec fn i64_of(j: Option<Json>) -> Option<i64> {
    match j {
        Some(Json::Number(n)) => n.as_i64,
        _ => None,
    }
}

/// The value of an integer number in the range of `u64`.
pub open spec fn u64_of(j: Option<Json>) -> Option<u64> {
    match j {
        Some(Json::Number(n)) => n.as_u64,
        _ => None,
    }
}

/// The kind of a field, when present.
pub open spec fn field_kind(j: Json, key: Seq<char>) -> Option<JsonKind> {
    match json_get(j, key) {
        Some(v) => Some(kind_spec(v)),
        None => None,
    }
}

/// A borrowed optional value, as a value.
pub open spec fn opt(j: Option<&Json>) -> Option<Json> {
    match j {
        Some(x) => Some(*x),
        None => None,
    }
}

/// The kind of a JSON value.
pub fn kind_of(j: &Json) -> (r: JsonKind)
    ensures
        r == kind_spec(*j),
{
    match j {
        Json::Null => JsonKind::Null,
        Json::Bool(_) => JsonKind::Bool,
        Json::Number(_) => JsonKind::Number,
        Json::Text(_) => JsonKind::Text,
        Json::Array(_) => JsonKind::Array,
        Json::Object(_) => JsonKind::Object,
    }
}

/// The field `key` of `j`.
pub fn get<'a>(j: &'a Json, key: &str) -> (r: Option<&'a Json>)
    ensures
        match r {
            Some(x) => json_get(*j, key@) == Some(*x),
            None => json_get(*j, key@) is None,
        },
{
    match j {
        Json::Object(entries) => {
            let mut i: usize = 0;
            assert(entries@.skip(0) =~= entries@);
            while i < entries.len()
                invariant
                    i <= entries.len(),
                    json_get(*j, key@) == entry_lookup(entries@, key@),
                    entry_lookup(entries@, key@) == entry_lookup(entries@.skip(i as int), key@),
                decreases entries.len() - i,
            {
                assert(entries@.skip(i as int)[0] == entries@[i as int]);
                if chars_eq_str(&str_chars(entries[i].0.as_str()), key) {
                    assert(entry_lookup(entries@.skip(i as int), key@) == Some(entries@[i as int].1));
                    return Some(&entries[i].1);
                }
                assert(entries@.skip(i as int).drop_first() =~= entries@.skip(i + 1));
                i = i + 1;
            }
            None
        },
        _ => None,
    }
}

/// The text of a string value.
pub fn as_str<'a>(j: Option<&'a Json>) -> (r: Option<&'a String>)
    ensures
        match r {
            Some(s) => str_of(opt(j)) == Some(s@),
            None => str_of(opt(j)) is None,
        },
{
    match j {
        Some(Json::Text(s)) => Some(s),
        _ => None,
    }
}

/// The value of a boolean.
pub fn as_bool(j: Option<&Json>) -> (r: Option<bool>)
    ensures
        r == bool_of(opt(j)),
{
    match j {
        Some(Json::Bool(b)) => Some(*b),
        _ => None,
    }
}

/// The value of an integer number in the range of `i64`.
pub fn as_i64(j: Option<&Json>) -> (r: Option<i64>)
    ensures
        r == i64_of(opt(j)),
{
    match j {
        Some(Json::Number(n)) => n.as_i64,
        _ => None,
    }
}

/// The value of an integer number in the range of `u64`.
pub fn as_u64(j: Option<&Json>) -> (r: Option<u64>)
    ensures
        r == u64_of(opt(j)),
{
    match j {
        Some(Json::Number(n)) => n.as_u64,
        _ => None,
    }
}

/// The kind of the field `key`, when present.
fn kind_of_field(j: &Json, key: &str) -> (r: Option<JsonKind>)
    ensures
        r == field_kind(*j, key@),
{
    match get(j, key) {
        Some(v) => Some(kind_of(v)),
        None => None,
    }
}

/// The id and flag a tag file value gives, or the message that refuses
/// it: a string is a required entry; an object needs a string `id` and may
/// say `required` (true by default).
pub open spec fn tag_entry_fields(v: Json) -> Result<(Seq<char>, bool), Seq<char>> {
    match v {
        Json::Text(s) => Ok((s@, true)),
        Json::Object(_) => match str_of(json_get(v, "id"@)) {
            Some(id) => Ok(
                (
                    id,
                    match bool_of(json_get(v, "required"@)) {
                        Some(b) => b,
                        None => true,
                    },
                ),
            ),
            None => Err("tag value object requires string id"@),
        },
        _ => Err("tag values must be strings or objects"@),
    }
}

/// Why a tag file value is refused, if it is.
pub open spec fn tag_entry_problem(v: Json) -> Option<Seq<char>> {
    match tag_entry_fields(v) {
        Err(m) => Some(m),
        Ok((raw, required)) => match tag_entry_of(raw, required) {
            Err(m) => Some(m),
            Ok(_) => None,
        },
    }
}

/// The entry `t` is what the tag file value `v` gives.
pub open spec fn tag_entry_matches(t: TagValue, v: Json) -> bool {
    match tag_entry_fields(v) {
        Ok((raw, required)) => match tag_entry_of(raw, required) {
            Ok((is_tag, id)) => value_id(t) == id && value_required(t) == required && (t is Tag
                <==> is_tag),
            Err(_) => false,
        },
        Err(_) => false,
    }
}

/// The first refused value of a tag file, with its message.
pub open spec fn first_entry_problem(values: Seq<Json>) -> Option<Seq<char>>
    decreases values.len(),
{
    if values.len() == 0 {
        None
    } else {
        match tag_entry_problem(values[0]) {
            Some(m) => Some(m),
            None => first_entry_problem(values.drop_first()),
        }
    }
}

/// One value of a tag file; errors name the file as `path`.
pub fn parse_tag_entry(path: &str, value: &Json) -> (r: Result<TagValue, DataPackError>)
    ensures
        match tag_entry_problem(*value) {
            Some(m) => r matches Err(e) && tag_problem_error((path@, m), e),
            None => r matches Ok(t) && tag_entry_matches(t, *value),
        },
{
    let (raw_id, required): (&String, bool) = match value {
        Json::Text(s) => (s, true),
        Json::Object(_) => {
            let id = match as_str(get(value, "id")) {
                Some(id) => id,
                None => {
                    return Err(
                        DataPackError::InvalidTag {
                            path: string_from_str(path),
                            message: string_from_str("tag value object requires string id"),
                        },
                    );
                },
            };
            let required = match as_bool(get(value, "required")) {
                Some(b) => b,
                None => true,
            };
            (id, required)
        },
        _ => {
            return Err(
                DataPackError::InvalidTag {
                    path: string_from_str(path),
                    message: string_from_str("tag values must be strings or objects"),
                },
            );
        },
    };
    tag_value_from_entry(path, raw_id.as_str(), required)
}

/// What a tag file holds, or why it is refused: it must be an object whose
/// `values` is an array of acceptable values; `replace` is false unless
/// set.
pub open spec fn tag_file_problem(v: Json) -> Option<Seq<char>> {
    if !(v is Object) {
        Some("tag must be an object"@)
    } else {
        match json_get(v, "values"@) {
            Some(Json::Array(values)) => first_entry_problem(values@),
            _ => Some("tag.values must be an array"@),
        }
    }
}

/// What reading a tag file's value gives: the refusal its problem names,
/// or the definition whose entries match the `values` array one for one and
/// whose `replace` flag is the file's (false when absent).
pub open spec fn tag_outcome(path: Seq<char>, value: Json, r: Result<TagDefinition, DataPackError>) -> bool {
    match tag_file_problem(value) {
        Some(m) => r matches Err(e) && tag_problem_error((path, m), e),
        None => r matches Ok(d) && (json_get(value, "values"@) matches Some(Json::Array(values))
            && d.values@.len() == values@.len() && (forall|i: int|
            0 <= i < values@.len() ==> #[trigger] tag_entry_matches(d.values@[i], values@[i])))
            && d.replace == (match bool_of(json_get(value, "replace"@)) {
            Some(b) => b,
            None => false,
        }),
    }
}

/// A tag file's definition; errors name the file as `path`.
pub fn parse_tag_value(path: &str, value: &Json) -> (r: Result<TagDefinition, DataPackError>)
    ensures
        tag_outcome(path@, *value, r),
{
    if !matches!(value, Json::Object(_)) {
        return Err(
            DataPackError::InvalidTag {
                path: string_from_str(path),
                message: string_from_str("tag must be an object"),
            },
        );
    }
    let replace = match as_bool(get(value, "replace")) {
        Some(b) => b,
        None => false,
    };
    let items = match get(value, "values") {
        Some(Json::Array(items)) => items,
        _ => {
            return Err(
                DataPackError::InvalidTag {
                    path: string_from_str(path),
                    message: string_from_str("tag.values must be an array"),
                },
            );
        },
    };
    let mut values: Vec<TagValue> = Vec::new();
    let mut i: usize = 0;
    assert(items@.skip(0) =~= items@);
    while i < items.len()
        invariant
            i <= items.len(),
            tag_file_problem(*value) == first_entry_problem(items@),
            json_get(*value, "values"@) matches Some(Json::Array(vs)) && vs@ == items@,
            replace == (match bool_of(json_get(*value, "replace"@)) {
                Some(b) => b,
                None => false,
            }),
            values@.len() == i,
            forall|k: int| 0 <= k < i ==> #[trigger] tag_entry_matches(values@[k], items@[k]),
            first_entry_problem(items@) == first_entry_problem(items@.skip(i as int)),
        decreases items.len() - i,
    {
        assert(items@.skip(i as int)[0] == items@[i as int]);
        assert(items@.skip(i as int).drop_first() =~= items@.skip(i + 1));
        match parse_tag_entry(path, &items[i]) {
            Ok(t) => values.push(t),
            Err(e) => {
                proof {
                    let rest = items@.skip(i as int);
                    assert(tag_entry_problem(items@[i as int]) is Some);
                    assert(first_entry_problem(rest) == tag_entry_problem(rest[0]));
                }
                return Err(e);
            },
        }
        i = i + 1;
    }
    assert(items@.skip(i as int).len() == 0);
    Ok(TagDefinition { values, replace })
}

/// What a `pack.mcmeta` value says of `pack.pack_format`.
pub open spec fn pack_format_field(v: Json) -> PackFormatField {
    match json_get(v, "pack"@) {
        Some(pack) => if pack is Object {
            match i64_of(json_get(pack, "pack_format"@)) {
                Some(n) => PackFormatField::Value(n),
                None => PackFormatField::NotAnInteger,
            }
        } else {
            PackFormatField::NoPackObject
        },
        None => PackFormatField::NoPackObject,
    }
}

/// What reading a `pack.mcmeta` value gives: the pack, when `pack` is an
/// object whose `pack_format` is a positive integer, else the refusal that
/// names the first problem.
pub open spec fn metadata_outcome(
    name: Seq<char>,
    path: Seq<char>,
    value: Json,
    r: Result<LoadedDataPack, DataPackError>,
) -> bool {
    match pack_format_field(value) {
        PackFormatField::NoPackObject => r matches Err(e) && metadata_error(e, path, "missing pack object"@),
        PackFormatField::NotAnInteger => r matches Err(e) && metadata_error(
            e,
            path,
            "pack.pack_format must be an integer"@,
        ),
        PackFormatField::Value(v) => if v < 1 {
            r matches Err(e) && metadata_error(e, path, "pack.pack_format must be positive"@)
        } else {
            r matches Ok(p) && p.name@ == name && p.path@ == path && p.pack_format == v
        },
    }
}

/// The pack that a decoded `pack.mcmeta` describes: its `pack` object's
/// `pack_format` must be a positive integer; errors name the file as
/// `path`.
pub fn parse_metadata_value(name: &str, path: &str, value: &Json) -> (r: Result<LoadedDataPack, DataPackError>)
    ensures
        metadata_outcome(name@, path@, *value, r),
{
    let format = match get(value, "pack") {
        Some(pack) => if matches!(pack, Json::Object(_)) {
            match as_i64(get(pack, "pack_format")) {
                Some(n) => PackFormatField::Value(n),
                None => PackFormatField::NotAnInteger,
            }
        } else {
            PackFormatField::NoPackObject
        },
        None => PackFormatField::NoPackObject,
    };
    DataPackLoader::metadata(name, path, format)
}

/// The kinds of the fields that raw resource validation reads.
pub open spec fn resource_fields_of(v: Json) -> ResourceFields {
    ResourceFields {
        pools: field_kind(v, "pools"@),
        type_field: field_kind(v, "type"@),
        condition: field_kind(v, "condition"@),
        criteria: field_kind(v, "criteria"@),
        parent: field_kind(v, "parent"@),
    }
}

/// What validating a raw JSON resource of kind `kind` gives: the value
/// itself, or the refusal that names its problem.
pub open spec fn resource_outcome(path: Seq<char>, kind: Seq<char>, value: Json, r: Result<Json, DataPackError>) -> bool {
    match json_resource_problem(kind, kind_spec(value), resource_fields_of(value)) {
        None => r == Ok::<Json, DataPackError>(value),
        Some(m) => r matches Err(e) && e matches DataPackError::InvalidResource {
            kind: k,
            path: p,
            message: msg,
        } && k@ == kind && p@ == path && msg@ == m,
    }
}

/// Validates a raw JSON resource of kind `kind` and hands it back; errors
/// name the file as `path`.
pub fn parse_json_resource(path: &str, kind: &str, value: Json) -> (r: Result<Json, DataPackError>)
    ensures
        resource_outcome(path@, kind@, value, r),
{
    let fields = ResourceFields {
        pools: kind_of_field(&value, "pools"),
        type_field: kind_of_field(&value, "type"),
        condition: kind_of_field(&value, "condition"),
        criteria: kind_of_field(&value, "criteria"),
        parent: kind_of_field(&value, "parent"),
    };
    match check_json_resource(path, kind, kind_of(&value), fields) {
        Ok(()) => Ok(value),
        Err(e) => Err(e),
    }
}

/// serde_json's decoded value, carried only from the decoder to the
/// conversion into the library's own `Json`.
#[verifier::external_type_specification]
#[verifier::external_body]
pub struct ExDecodedJsonValue(serde_json::Value);

/// The value that serde_json decodes from a text, or `None` where it
/// refuses the text; a function of the text alone.
pub uninterp spec fn decoded_json(text: Seq<char>) -> Option<Json>;

/// The value that serde_json decodes from bytes, or `None` where it refuses
/// them; a function of the bytes alone.
pub uninterp spec fn decoded_json_bytes(bytes: Seq<u8>) -> Option<Json>;

/// Converts a value that serde_json decoded into the library's `Json`,
/// variant for variant: a number keeps its text and its `i64` and `u64`
/// readings, and an object its entries in the map's key order.  Nothing is
/// claimed of the result; the decoders below name it.
#[verifier::external_body]
fn json_from_value(value: &serde_json::Value) -> Json {
    match value {
        serde_json::Value::Null => Json::Null,
        serde_json::Value::Bool(b) => Json::Bool(*b),
        serde_json::Value::Number(n) => Json::Number(JsonNumber { text: n.to_string(), as_i64: n.as_i64(), as_u64: n.as_u64() }),
        serde_json::Value::String(t) => Json::Text(t.clone()),
        serde_json::Value::Array(items) => Json::Array(items.iter().map(json_from_value).collect()),
        serde_json::Value::Object(map) => Json::Object(map.iter().map(|(k, v)| (k.clone(), json_from_value(v))).collect()),
    }
}

/// Decodes a JSON text with `serde_json::from_str` into a
/// `serde_json::Value` and converts it.  The contract claims that the
/// outcome depends on the text alone, named `decoded_json`; the error text
/// is serde_json's message and nothing is claimed of it.
#[verifier::external_body]
pub(crate) fn decode_json(text: &str) -> (r: Result<Json, String>)
    ensures
        r is Ok <==> decoded_json(text@) is Some,
        r matches Ok(j) ==> decoded_json(text@) == Some(j),
{
    match serde_json::from_str::<serde_json::Value>(text) {
        Ok(value) => Ok(json_from_value(&value)),
        Err(error) => Err(error.to_string()),
    }
}

/// Decodes JSON bytes with `serde_json::from_slice` into a
/// `serde_json::Value` and converts it.  The contract claims that the
/// outcome depends on the bytes alone, named `decoded_json_bytes`; the
/// error text is serde_json's message and nothing is claimed of it.
#[verifier::external_body]
pub(crate) fn decode_json_bytes(bytes: &[u8]) -> (r: Result<Json, String>)
    ensures
        r is Ok <==> decoded_json_bytes(bytes@) is Some,
        r matches Ok(j) ==> decoded_json_bytes(bytes@) == Some(j),
{
    match serde_json::from_slice::<serde_json::Value>(bytes) {
        Ok(value) => Ok(json_from_value(&value)),
        Err(error) => Err(error.to_string()),
    }
}

} // verus!
