//! Transactional loading of world datapacks: the parsed model of tags,
//! functions and resources, and the rules that decide what a reload
//! publishes.
//!
//! A reload builds a complete candidate snapshot before anything is
//! published, so a malformed file cannot leave half of a reload visible.
pub mod archive;
pub mod candidate;
pub mod files;
pub mod json;
pub mod recipes;
pub mod resources;
pub mod tags;

use vstd::prelude::*;

use crate::text::{
    chars_eq, chars_eq_str, concat_chars, str_chars, string_from_chars, strip_prefix_or_keep,
    strip_prefix_or_keep_str,
};

verus! {

/// Why a datapack reload was refused.  Paths are the file (or, for tag
/// graph problems, the tag id) that the problem was found in.
#[derive(Clone, Debug, PartialEq, Eq)]
pub enum DataPackError {
    Io { path: String, message: String },
    InvalidArchive { path: String, message: String },
    MissingMetadata { pack: String },
    InvalidMetadata { path: String, message: String },
    InvalidRecipe { path: String, message: String },
    InvalidTag { path: String, message: String },
    InvalidFunction { path: String, message: String },
    InvalidResource { kind: String, path: String, message: String },
    MissingEnabledPack(String),
}

/// One enabled datapack that was loaded.
#[derive(Clone, Debug, PartialEq, Eq)]
pub struct LoadedDataPack {
    pub name: String,
    pub path: String,
    pub pack_format: i64,
}

/// Loads the enabled datapacks of a world in their persisted priority
/// order.  The reading of directories and archives is done by its caller;
/// these functions make the decisions that the order and the names impose.
pub struct DataPackLoader;

/// The index of the first enabled pack other than `vanilla`, if any.
pub open spec fn first_non_vanilla(enabled: Seq<String>) -> Option<int>
    decreases enabled.len(),
{
    if enabled.len() == 0 {
        None
    } else if enabled.last()@ != "vanilla"@ {
        match first_non_vanilla(enabled.drop_last()) {
            Some(i) => Some(i),
            None => Some(enabled.len() - 1),
        }
    } else {
        first_non_vanilla(enabled.drop_last())
    }
}

/// The directory or archive name that a persisted pack name refers to.
pub open spec fn pack_directory_name(persisted: Seq<char>) -> Seq<char> {
    strip_prefix_or_keep(persisted, "file/"@)
}

impl DataPackLoader {
    /// When the world has no `datapacks` directory, only the built-in
    /// `vanilla` pack may be enabled: the first other enabled name is
    /// reported missing, so that a reload never silently drops a pack.
    pub fn check_without_datapacks_directory(enabled: &[String]) -> (r: Result<(), DataPackError>)
        ensures
            match first_non_vanilla(enabled@) {
                None => r is Ok,
                Some(i) => r matches Err(DataPackError::MissingEnabledPack(name)) && name@
                    == enabled@[i]@,
            },
    {
        let mut i: usize = 0;
        while i < enabled.len()
            invariant
                i <= enabled.len(),
                first_non_vanilla(enabled@.take(i as int)) is None,
            decreases enabled.len() - i,
        {
            let name = str_chars(enabled[i].as_str());
            assert(enabled@.take(i + 1).drop_last() =~= enabled@.take(i as int));
            if !chars_eq_str(&name, "vanilla") {
                proof {
                    lemma_first_non_vanilla_prefix(enabled@, i as int);
                }
                return Err(DataPackError::MissingEnabledPack(copy_string(&enabled[i])));
            }
            i = i + 1;
        }
        assert(enabled@.take(enabled.len() as int) =~= enabled@);
        Ok(())
    }

    /// The pack that the persisted name `persisted` asks to load: `None`
    /// for the built-in `vanilla` pack, else the directory or archive name
    /// (a `file/` prefix dropped), which must be among `available`.
    pub fn pack_to_load(persisted: &String, available: &Vec<String>) -> (r: Result<
        Option<String>,
        DataPackError,
    >)
        ensures
            persisted@ == "vanilla"@ ==> r == Ok::<Option<String>, DataPackError>(None),
            persisted@ != "vanilla"@ && (exists|j: int|
                0 <= j < available.len() && available@[j]@ == pack_directory_name(persisted@))
                ==> (r matches Ok(Some(name)) && name@ == pack_directory_name(persisted@)),
            persisted@ != "vanilla"@ && !(exists|j: int|
                0 <= j < available.len() && available@[j]@ == pack_directory_name(persisted@))
                ==> (r matches Err(DataPackError::MissingEnabledPack(name)) && name@ == persisted@),
    {
        let p = str_chars(persisted.as_str());
        if chars_eq_str(&p, "vanilla") {
            return Ok(None);
        }
        let name = strip_prefix_or_keep_str(&p, "file/");
        let mut j: usize = 0;
        while j < available.len()
            invariant
                j <= available.len(),
                name@ == pack_directory_name(persisted@),
                persisted@ != "vanilla"@,
                forall|k: int| 0 <= k < j ==> available@[k]@ != name@,
            decreases available.len() - j,
        {
            let candidate = str_chars(available[j].as_str());
            if chars_eq(&candidate, &name) {
                return Ok(Some(string_from_chars(&name)));
            }
            j = j + 1;
        }
        Err(DataPackError::MissingEnabledPack(copy_string(persisted)))
    }
}

/// A prefix of `enabled` that holds no name other than `vanilla`, followed
/// by one such name, puts that name first.
proof fn lemma_first_non_vanilla_prefix(enabled: Seq<String>, i: int)
    requires
        0 <= i < enabled.len(),
        first_non_vanilla(enabled.take(i)) is None,
        enabled[i]@ != "vanilla"@,
    ensures
        first_non_vanilla(enabled) == Some(i),
    decreases enabled.len() - i,
{
    if i + 1 < enabled.len() {
        assert(enabled.drop_last().take(i) =~= enabled.take(i));
        lemma_first_non_vanilla_prefix(enabled.drop_last(), i);
    } else {
        assert(enabled.drop_last() =~= enabled.take(i));
    }
}

/// `a` followed by `b` and then `c`.
pub fn text3(a: &str, b: &Vec<char>, c: &str) -> (r: String)
    ensures
        r@ == a@ + b@ + c@,
{
    let av = str_chars(a);
    let cv = str_chars(c);
    let ab = concat_chars(&av, b);
    let abc = concat_chars(&ab, &cv);
    string_from_chars(&abc)
}

/// A copy of a string.
pub fn copy_string(s: &String) -> (r: String)
    ensures
        r@ == s@,
{
    s.clone()
}

/// What a `pack.mcmeta` file says of `pack.pack_format`.
#[derive(Clone, Copy, Debug, PartialEq, Eq, Structural)]
pub enum PackFormatField {
    /// The file has no `pack` object.
    NoPackObject,
    /// `pack.pack_format` is missing or not an integer.
    NotAnInteger,
    /// `pack.pack_format` is this integer.
    Value(i64),
}

/// `e` refuses the metadata file `path` with `message`.
pub open spec fn metadata_error(e: DataPackError, path: Seq<char>, message: Seq<char>) -> bool {
    e matches DataPackError::InvalidMetadata { path: p, message: m } && p@ == path && m@ == message
}

impl DataPackLoader {
    /// The pack that a parsed `pack.mcmeta` describes: its format must be a
    /// positive integer.
    pub fn metadata(name: &str, path: &str, format: PackFormatField) -> (r: Result<LoadedDataPack, DataPackError>)
        ensures
            match format {
                PackFormatField::NoPackObject => r matches Err(e) && metadata_error(e, path@, "missing pack object"@),
                PackFormatField::NotAnInteger => r matches Err(e) && metadata_error(
                    e,
                    path@,
                    "pack.pack_format must be an integer"@,
                ),
                PackFormatField::Value(v) => if v < 1 {
                    r matches Err(e) && metadata_error(e, path@, "pack.pack_format must be positive"@)
                } else {
                    r matches Ok(p) && p.name@ == name@ && p.path@ == path@ && p.pack_format == v
                },
            },
    {
        match format {
            PackFormatField::NoPackObject => Err(
                DataPackError::InvalidMetadata {
                    path: crate::text::string_from_str(path),
                    message: crate::text::string_from_str("missing pack object"),
                },
            ),
            PackFormatField::NotAnInteger => Err(
                DataPackError::InvalidMetadata {
                    path: crate::text::string_from_str(path),
                    message: crate::text::string_from_str("pack.pack_format must be an integer"),
                },
            ),
            PackFormatField::Value(v) => {
                if v < 1 {
                    Err(
                        DataPackError::InvalidMetadata {
                            path: crate::text::string_from_str(path),
                            message: crate::text::string_from_str("pack.pack_format must be positive"),
                        },
                    )
                } else {
                    Ok(
                        LoadedDataPack {
                            name: crate::text::string_from_str(name),
                            path: crate::text::string_from_str(path),
                            pack_format: v,
                        },
                    )
                }
            },
        }
    }
}

/// A tag error about `path`.
pub fn invalid_tag(path: &str, message: String) -> (r: DataPackError)
    ensures
        r matches DataPackError::InvalidTag { path: p, message: m } && p@ == path@ && m@ == message@,
{
    DataPackError::InvalidTag { path: crate::text::string_from_str(path), message }
}

/// A function error about `path`.
pub fn invalid_function(path: &str, message: String) -> (r: DataPackError)
    ensures
        r matches DataPackError::InvalidFunction { path: p, message: m } && p@ == path@ && m@ == message@,
{
    DataPackError::InvalidFunction { path: crate::text::string_from_str(path), message }
}

/// A recipe error about `path`.
pub fn invalid_recipe(path: &str, message: String) -> (r: DataPackError)
    ensures
        r matches DataPackError::InvalidRecipe { path: p, message: m } && p@ == path@ && m@ == message@,
{
    DataPackError::InvalidRecipe { path: crate::text::string_from_str(path), message }
}

/// An error about the raw resource file `path` of kind `kind`.
pub fn invalid_resource(path: &str, kind: &str, message: String) -> (r: DataPackError)
    ensures
        r matches DataPackError::InvalidResource { kind: k, path: p, message: m } && k@ == kind@
            && p@ == path@ && m@ == message@,
{
    DataPackError::InvalidResource {
        kind: crate::text::string_from_str(kind),
        path: crate::text::string_from_str(path),
        message,
    }
}

} // verus!
