//! What the packs of a reload contribute, read in priority order: each id
//! is filed once, and a later pack replaces what an earlier one filed under
//! the same id; tag files merge into the tag of their id.
use vstd::prelude::*;

use crate::datapack::json::Json;
use crate::datapack::recipes::{DynamicRecipe, RecipeLoad, classify_recipe_load, unsupported_prefix};
use crate::datapack::tags::{TagDefinition, merge_definitions, merged_replace, merged_values};
use crate::datapack::DataPackError;
use crate::keyed::KeyedFiles;
use crate::text::{chars_eq_str, str_chars};

verus! {

/// The candidate of a reload: what the packs read so far contribute.
pub struct PackCandidate {
    pub recipes: KeyedFiles<DynamicRecipe>,
    /// Recipe files of a type the server does not support: path and message.
    pub unsupported: Vec<(String, String)>,
    pub tags: KeyedFiles<TagDefinition>,
    pub functions: KeyedFiles<Vec<String>>,
    pub loot_tables: KeyedFiles<Json>,
    pub predicates: KeyedFiles<Json>,
    pub advancements: KeyedFiles<Json>,
    pub structures: KeyedFiles<Vec<u8>>,
}

/// `b` holds what `a` holds with `v` filed under `id`.
pub open spec fn filed<T>(a: KeyedFiles<T>, b: KeyedFiles<T>, id: Seq<char>, v: T) -> bool {
    &&& b.get(id) == Some(v)
    &&& forall|k: Seq<char>| k != id ==> #[trigger] b.get(k) == a.get(k)
}

/// Filing a recipe file's outcome: a recipe is filed under its id, a recipe
/// type the server does not support is reported, and any other refusal
/// refuses the reload, leaving the candidate as it was.
pub open spec fn recipe_filing(
    a: PackCandidate,
    b: PackCandidate,
    id: Seq<char>,
    outcome: Result<DynamicRecipe, DataPackError>,
    r: Result<(), DataPackError>,
) -> bool {
    match outcome {
        Ok(x) => r is Ok && filed(a.recipes, b.recipes, id, x) && b == (PackCandidate {
            recipes: b.recipes,
            ..a
        }),
        Err(e) => match e {
            DataPackError::InvalidRecipe { path, message } => if crate::text::starts_with(
                message@,
                unsupported_prefix(),
            ) {
                r is Ok && b == (PackCandidate { unsupported: b.unsupported, ..a })
                    && b.unsupported@ == a.unsupported@.push((path, message))
            } else {
                r == Err::<(), DataPackError>(e) && b == a
            },
            _ => r == Err::<(), DataPackError>(e) && b == a,
        },
    }
}

/// Merging a tag file into the tag of its id; other tags keep their
/// definitions.
pub open spec fn tag_merging(a: PackCandidate, b: PackCandidate, id: Seq<char>, incoming: TagDefinition) -> bool {
    &&& b.tags.get(id) matches Some(d) && d.values@ == merged_values(a.tags.get(id), incoming)
        && d.replace == merged_replace(a.tags.get(id), incoming)
    &&& forall|k: Seq<char>| k != id ==> #[trigger] b.tags.get(k) == a.tags.get(k)
    &&& b == (PackCandidate { tags: b.tags, ..a })
}

/// Filing a raw JSON resource under its directory `kind`; a directory other
/// than loot tables, predicates and advancements files nothing.
pub open spec fn resource_filing(a: PackCandidate, b: PackCandidate, kind: Seq<char>, id: Seq<char>, value: Json) -> bool {
    if kind == "loot_tables"@ {
        filed(a.loot_tables, b.loot_tables, id, value) && b == (PackCandidate { loot_tables: b.loot_tables, ..a })
    } else if kind == "predicates"@ {
        filed(a.predicates, b.predicates, id, value) && b == (PackCandidate { predicates: b.predicates, ..a })
    } else if kind == "advancements"@ {
        filed(a.advancements, b.advancements, id, value) && b == (PackCandidate {
            advancements: b.advancements,
            ..a
        })
    } else {
        b == a
    }
}

impl PackCandidate {
    /// Nothing read yet.
    pub fn new() -> (r: PackCandidate)
        ensures
            r.recipes.pairs().len() == 0,
            r.unsupported@.len() == 0,
            r.tags.pairs().len() == 0,
            r.functions.pairs().len() == 0,
            r.loot_tables.pairs().len() == 0,
            r.predicates.pairs().len() == 0,
            r.advancements.pairs().len() == 0,
            r.structures.pairs().len() == 0,
    {
        PackCandidate {
            recipes: KeyedFiles::new(),
            unsupported: Vec::new(),
            tags: KeyedFiles::new(),
            functions: KeyedFiles::new(),
            loot_tables: KeyedFiles::new(),
            predicates: KeyedFiles::new(),
            advancements: KeyedFiles::new(),
            structures: KeyedFiles::new(),
        }
    }

    /// Files a recipe file's outcome into the candidate, reports an
    /// unsupported recipe type, or refuses the reload.
    pub fn file_recipe(&mut self, id: String, outcome: Result<DynamicRecipe, DataPackError>) -> (r: Result<
        (),
        DataPackError,
    >)
        ensures
            recipe_filing(*old(self), *final(self), id@, outcome, r),
    {
        let ghost o = outcome;
        match classify_recipe_load(outcome) {
            RecipeLoad::Loaded(recipe) => {
                self.recipes.file(id, recipe);
                Ok(())
            },
            RecipeLoad::Unsupported { path, message } => {
                self.unsupported.push((path, message));
                Ok(())
            },
            RecipeLoad::Refused(error) => Err(error),
        }
    }

    /// Merges a tag file into the tag of its id.
    pub fn merge_tag(&mut self, id: String, incoming: TagDefinition)
        ensures
            tag_merging(*old(self), *final(self), id@, incoming),
    {
        let merged = merge_definitions(self.tags.get_entry(id.as_str()), incoming);
        self.tags.file(id, merged);
    }

    /// Files a raw JSON resource under its directory `kind`.
    pub fn insert_resource(&mut self, kind: &str, id: String, value: Json)
        ensures
            resource_filing(*old(self), *final(self), kind@, id@, value),
    {
        let k = str_chars(kind);
        proof {
            reveal_strlit("loot_tables");
            reveal_strlit("predicates");
            reveal_strlit("advancements");
        }
        if chars_eq_str(&k, "loot_tables") {
            self.loot_tables.file(id, value);
        } else if chars_eq_str(&k, "predicates") {
            self.predicates.file(id, value);
        } else if chars_eq_str(&k, "advancements") {
            self.advancements.file(id, value);
        }
    }
}

} // verus!
