//! Datapack files read from their raw text or bytes: each is decoded as
//! JSON and then read by the parser of its kind.
use vstd::prelude::*;

use crate::datapack::json::{
    Json, decode_json, decode_json_bytes, decoded_json, decoded_json_bytes, metadata_outcome,
    parse_json_resource, parse_metadata_value, parse_tag_value, resource_outcome, tag_outcome,
};
use crate::datapack::recipes::{DynamicRecipe, parse_recipe_value, recipe_outcome};
use crate::datapack::resources::{
    ArchiveEntry, raw_resource_of, recipe_error, recipe_id_from_components, recipe_id_from_path,
    recipe_id_of, recipe_id_from_resource_path, resource_id_from_resource_path, tag_file_error,
    tag_id_from_resource_path, tag_id_of,
};
use crate::datapack::tags::{TagDefinition, VanillaElements};
use crate::datapack::{DataPackError, LoadedDataPack};
use crate::sorted::sview;
use crate::text::{concat_chars, str_chars, string_from_chars, string_from_str};

verus! {

/// What reading a `pack.mcmeta` text gives: a text that is not JSON is
/// refused as invalid metadata, a decoded one is read as metadata.
pub open spec fn metadata_text_outcome(
    name: Seq<char>,
    path: Seq<char>,
    text: Seq<char>,
    r: Result<LoadedDataPack, DataPackError>,
) -> bool {
    match decoded_json(text) {
        None => r matches Err(DataPackError::InvalidMetadata { path: p, message: _ }) && p@ == path,
        Some(j) => metadata_outcome(name, path, j, r),
    }
}

/// The pack that a `pack.mcmeta` text describes; errors name the file as
/// `path`.  A text that is not JSON is refused as invalid metadata.
pub fn metadata_from_text(name: &str, path: &str, text: &str) -> (r: Result<LoadedDataPack, DataPackError>)
    ensures
        metadata_text_outcome(name@, path@, text@, r),
{
    match decode_json(text) {
        Err(message) => Err(DataPackError::InvalidMetadata { path: string_from_str(path), message }),
        Ok(j) => parse_metadata_value(name, path, &j),
    }
}

/// The definition that a tag file's text holds; errors name the file as
/// `path`.  A text that is not JSON is refused as an invalid tag.
pub fn tag_from_text(path: &str, text: &str) -> (r: Result<TagDefinition, DataPackError>)
    ensures
        match decoded_json(text@) {
            None => r matches Err(DataPackError::InvalidTag { path: p, message: _ }) && p@ == path@,
            Some(j) => tag_outcome(path@, j, r),
        },
{
    match decode_json(text) {
        Err(message) => Err(DataPackError::InvalidTag { path: string_from_str(path), message }),
        Ok(j) => parse_tag_value(path, &j),
    }
}

/// A recipe file of a pack directory: its text is decoded first, then its
/// id is taken from its path components, then the recipe is read.  The
/// outcome of the reading is handed back beside the id, for the candidate
/// to file or report; a text that is not JSON, or a path outside a recipes
/// directory, refuses the reload.
pub fn recipe_from_text(path: &str, components: &Vec<String>, text: &str, vanilla: &VanillaElements) -> (r:
    Result<(String, Result<DynamicRecipe, DataPackError>), DataPackError>)
    ensures
        match decoded_json(text@) {
            None => r matches Err(DataPackError::InvalidRecipe { path: p, message: _ }) && p@ == path@,
            Some(j) => match recipe_id_from_components(sview(components@)) {
                Err(m) => r matches Err(e) && recipe_error(e, path@, m),
                Ok(id) => r matches Ok((s, outcome)) && s@ == id && recipe_outcome(path@, j, id, *vanilla, outcome),
            },
        },
{
    let j = match decode_json(text) {
        Err(message) => {
            return Err(DataPackError::InvalidRecipe { path: string_from_str(path), message });
        },
        Ok(j) => j,
    };
    let id = match recipe_id_from_path(components, path) {
        Err(e) => {
            return Err(e);
        },
        Ok(id) => id,
    };
    let outcome = parse_recipe_value(path, &j, id.as_str(), vanilla);
    Ok((id, outcome))
}

/// A raw JSON resource of `kind` (loot table, predicate or advancement):
/// its text is decoded and validated; errors name the file as `path`.
pub fn resource_from_text(path: &str, kind: &str, text: &str) -> (r: Result<Json, DataPackError>)
    ensures
        match decoded_json(text@) {
            None => r matches Err(DataPackError::InvalidResource { kind: k, path: p, message: _ }) && k@
                == kind@ && p@ == path@,
            Some(j) => resource_outcome(path@, kind@, j, r),
        },
{
    match decode_json(text) {
        Err(message) => Err(
            DataPackError::InvalidResource { kind: string_from_str(kind), path: string_from_str(path), message },
        ),
        Ok(j) => parse_json_resource(path, kind, j),
    }
}

/// What a JSON entry of a pack archive contributes.
#[derive(Debug)]
pub enum ArchiveJson {
    Tag { id: String, definition: TagDefinition },
    /// A recipe file, with the outcome of reading it.
    Recipe { id: String, outcome: Result<DynamicRecipe, DataPackError> },
    /// A loot table, predicate or advancement, under its directory.
    Resource { kind: String, id: String, value: Json },
}

/// The start of the message that refuses an archive entry holding no JSON.
pub open spec fn invalid_json_prefix(entry_name: Seq<char>) -> Seq<char> {
    "invalid JSON in "@ + entry_name + ": "@
}

/// What reading the JSON entry `entry_name` (shown as `shown`) of the
/// archive at `pack_path` gives: bytes that are not JSON refuse the
/// archive; then the id is taken from the entry name and the value read by
/// the parser of its kind.
pub open spec fn archive_json_outcome(
    pack_path: Seq<char>,
    entry_name: Seq<char>,
    shown: Seq<char>,
    kind: ArchiveEntry,
    bytes: Seq<u8>,
    vanilla: VanillaElements,
    r: Result<ArchiveJson, DataPackError>,
) -> bool {
    match decoded_json_bytes(bytes) {
        None => r matches Err(DataPackError::InvalidArchive { path: p, message: m }) && p@ == pack_path
            && crate::text::starts_with(m@, invalid_json_prefix(entry_name)),
        Some(j) => match kind {
            ArchiveEntry::Tag => match tag_id_of(entry_name) {
                Err(m) => r matches Err(e) && tag_file_error(e, shown, m),
                Ok(id) => match r {
                    Ok(ArchiveJson::Tag { id: s, definition: d }) => s@ == id && tag_outcome(
                        shown,
                        j,
                        Ok(d),
                    ),
                    Err(e) => tag_outcome(shown, j, Err(e)),
                    _ => false,
                },
            },
            ArchiveEntry::Recipe => match recipe_id_of(entry_name) {
                Err(m) => r matches Err(e) && recipe_error(e, shown, m),
                Ok(id) => r matches Ok(ArchiveJson::Recipe { id: s, outcome: o }) && s@ == id
                    && recipe_outcome(shown, j, id, vanilla, o),
            },
            _ => match raw_resource_of(entry_name) {
                Err((k, m)) => r matches Err(e) && e matches DataPackError::InvalidResource {
                    kind: ek,
                    path: ep,
                    message: em,
                } && ek@ == k && ep@ == shown && em@ == m,
                Ok((dir, id)) => match r {
                    Ok(ArchiveJson::Resource { kind: k, id: s, value: v }) => k@ == dir && s@ == id
                        && resource_outcome(shown, dir, j, Ok(v)),
                    Err(e) => resource_outcome(shown, dir, j, Err(e)),
                    _ => false,
                },
            },
        },
    }
}

/// A JSON entry `entry_name` of the archive at `pack_path`, shown to users
/// as `shown`, whose kind was found from its name.  The bytes are decoded
/// first: bytes that are not JSON refuse the archive.  Then the id is taken
/// from the entry name and the value read by the parser of its kind; a kind
/// other than a tag or a recipe is read as a raw resource.
pub fn archive_entry(
    pack_path: &str,
    entry_name: &str,
    shown: &str,
    kind: ArchiveEntry,
    bytes: &[u8],
    vanilla: &VanillaElements,
) -> (r: Result<ArchiveJson, DataPackError>)
    ensures
        archive_json_outcome(pack_path@, entry_name@, shown@, kind, bytes@, *vanilla, r),
{
    let j = match decode_json_bytes(bytes) {
        Err(message) => {
            let head = concat_chars(&str_chars("invalid JSON in "), &str_chars(entry_name));
            let head = concat_chars(&head, &str_chars(": "));
            let all = concat_chars(&head, &str_chars(message.as_str()));
            proof {
                assert(all@.take(head@.len() as int) =~= head@);
            }
            return Err(DataPackError::InvalidArchive { path: string_from_str(pack_path), message: string_from_chars(&all) });
        },
        Ok(j) => j,
    };
    match kind {
        ArchiveEntry::Tag => {
            let id = match tag_id_from_resource_path(entry_name, shown) {
                Err(e) => {
                    return Err(e);
                },
                Ok(id) => id,
            };
            match parse_tag_value(shown, &j) {
                Ok(definition) => Ok(ArchiveJson::Tag { id, definition }),
                Err(e) => Err(e),
            }
        },
        ArchiveEntry::Recipe => {
            let id = match recipe_id_from_resource_path(entry_name, shown) {
                Err(e) => {
                    return Err(e);
                },
                Ok(id) => id,
            };
            let outcome = parse_recipe_value(shown, &j, id.as_str(), vanilla);
            Ok(ArchiveJson::Recipe { id, outcome })
        },
        _ => {
            let (dir, id) = match resource_id_from_resource_path(entry_name, shown) {
                Err(e) => {
                    return Err(e);
                },
                Ok(p) => p,
            };
            match parse_json_resource(shown, dir.as_str(), j) {
                Ok(value) => Ok(ArchiveJson::Resource { kind: dir, id, value }),
                Err(e) => Err(e),
            }
        },
    }
}

} // verus!
