//! Recipe-book keys: canonical recipe identifiers and the limited-crafting
//! gate; and the runtime state that datapack reloads publish.
use vstd::prelude::*;

use crate::datapack::copy_string;
use crate::datapack::tags::{TagDefinition, TagSnapshot, VanillaElements, keys_sorted};
use crate::identifier::minecraft_prefix;
use crate::keyed::{KeyedFiles, ids_of};
use crate::sorted::{strictly_sorted, sview};
use crate::datapack::recipes::{CraftingRecipe, DynamicRecipe, RecipeView, recipe_view};
use crate::text::{chars_eq, concat_chars, contains_char, str_chars, string_from_chars};
use std::sync::Arc;

verus! {

/// A recipe id with a namespace: ids without `:` are vanilla ids.
pub open spec fn canonical_recipe_id(id: Seq<char>) -> Seq<char> {
    if id.contains(':') {
        id
    } else {
        minecraft_prefix() + id
    }
}

/// The recipe key that `id` denotes: unchanged when it names a namespace,
/// prefixed with `minecraft:` otherwise.
pub fn canonicalize_recipe_id(id: &str) -> (r: String)
    ensures
        r@ == canonical_recipe_id(id@),
{
    let chars = str_chars(id);
    if contains_char(&chars, ':') {
        return string_from_chars(&chars);
    }
    let prefix = str_chars("minecraft:");
    proof {
        reveal_strlit("minecraft:");
        assert(prefix@ =~= minecraft_prefix());
    }
    let all = concat_chars(&prefix, &chars);
    string_from_chars(&all)
}

/// The limited-crafting gate: without the game rule every recipe is allowed;
/// with it, only recipes whose canonical key the player knows.
pub fn is_recipe_allowed(limited_crafting: bool, known_recipes: &[String], recipe_id: &str) -> (r:
    bool)
    ensures
        r == (!limited_crafting || sview(known_recipes@).contains(canonical_recipe_id(recipe_id@))),
{
    if !limited_crafting {
        return true;
    }
    let key = canonicalize_recipe_id(recipe_id);
    let mut i: usize = 0;
    while i < known_recipes.len()
        invariant
            i <= known_recipes.len(),
            key@ == canonical_recipe_id(recipe_id@),
            forall|j: int| 0 <= j < i ==> sview(known_recipes@)[j] != key@,
        decreases known_recipes.len() - i,
    {
        if known_recipes[i] == key {
            assert(sview(known_recipes@)[i as int] == key@);
            return true;
        }
        i = i + 1;
    }
    false
}

/// The commands of the first function named `id`.
pub open spec fn function_lookup(functions: Seq<(String, Vec<String>)>, id: Seq<char>) -> Option<Seq<Seq<char>>>
    decreases functions.len(),
{
    if functions.len() == 0 {
        None
    } else if functions[0].0@ == id {
        Some(sview(functions[0].1@))
    } else {
        function_lookup(functions.drop_first(), id)
    }
}

/// The recipes, tags, functions and raw resources a server currently
/// serves, and the generation counter that every publication advances.  A
/// datapack reload publishes everything at once, so a reader sees either the
/// old or the new datapack, never a mix.  Recipes are shared with readers.
pub struct RecipeRuntime<Res> {
    pub dynamic_recipes: Vec<Arc<DynamicRecipe>>,
    pub tags: TagSnapshot,
    pub functions: Vec<(String, Vec<String>)>,
    pub resources: Res,
    pub generation: u64,
}

/// The generation after one more publication (wrapping at `u64::MAX`).
pub open spec fn next_generation(g: u64) -> u64 {
    if g == u64::MAX {
        0
    } else {
        (g + 1) as u64
    }
}

/// The views of the served recipes.
pub open spec fn served_views(v: Seq<Arc<DynamicRecipe>>) -> Seq<RecipeView> {
    Seq::new(v.len(), |i: int| recipe_view(*v[i]))
}

/// The views of a list of recipes.
pub open spec fn recipe_views(v: Seq<DynamicRecipe>) -> Seq<RecipeView> {
    Seq::new(v.len(), |i: int| recipe_view(v[i]))
}

/// The id a recipe was declared with.
pub open spec fn declared_id(v: RecipeView) -> Seq<char> {
    match v {
        RecipeView::Shaped { recipe_id, .. } => recipe_id,
        RecipeView::Shapeless { recipe_id, .. } => recipe_id,
        RecipeView::Cooking { recipe_id, .. } => recipe_id,
    }
}

/// The recipe-book key of a recipe: its declared id in canonical form
/// (never derived from the item it makes).
pub open spec fn recipe_key(v: RecipeView) -> Seq<char> {
    canonical_recipe_id(declared_id(v))
}

/// The first served recipe with recipe-book key `key`.
pub open spec fn first_with_key(v: Seq<RecipeView>, key: Seq<char>) -> Option<int>
    decreases v.len(),
{
    if v.len() == 0 {
        None
    } else if recipe_key(v[0]) == key {
        Some(0)
    } else {
        match first_with_key(v.drop_first(), key) {
            Some(i) => Some(i + 1),
            None => None,
        }
    }
}

/// The served recipes after adding `r`: it replaces the first recipe with
/// the same key, or joins the end.
pub open spec fn with_recipe(v: Seq<RecipeView>, r: RecipeView) -> Seq<RecipeView> {
    match first_with_key(v, recipe_key(r)) {
        Some(i) => v.update(i, r),
        None => v.push(r),
    }
}

/// No two served recipes share a recipe-book key.
pub open spec fn keys_distinct(v: Seq<RecipeView>) -> bool {
    forall|i: int, j: int| 0 <= i < j < v.len() ==> recipe_key(#[trigger] v[i]) != recipe_key(#[trigger] v[j])
}

/// What the first recipe with a key is: the earliest recipe with that key.
proof fn lemma_first_with_key(v: Seq<RecipeView>, key: Seq<char>)
    ensures
        match first_with_key(v, key) {
            Some(i) => 0 <= i < v.len() && recipe_key(v[i]) == key && forall|j: int|
                0 <= j < i ==> recipe_key(#[trigger] v[j]) != key,
            None => forall|j: int| 0 <= j < v.len() ==> recipe_key(#[trigger] v[j]) != key,
        },
    decreases v.len(),
{
    if v.len() > 0 {
        lemma_first_with_key(v.drop_first(), key);
        assert forall|j: int| 1 <= j < v.len() implies v[j] == v.drop_first()[j - 1] by {}
    }
}

/// The recipe-book keys of a list of recipes.
pub open spec fn keys_of(v: Seq<RecipeView>) -> Set<Seq<char>> {
    v.map_values(|x: RecipeView| recipe_key(x)).to_set()
}

/// Adding a recipe serves it; the keys served afterwards are those served
/// before and the recipe's own; and no two served recipes share a key
/// afterwards when none did before.
pub proof fn lemma_add_recipe_keeps_keys_distinct(v: Seq<RecipeView>, r: RecipeView)
    requires
        keys_distinct(v),
    ensures
        keys_distinct(with_recipe(v, r)),
        with_recipe(v, r).contains(r),
        keys_of(with_recipe(v, r)) == keys_of(v).insert(recipe_key(r)),
{
    lemma_first_with_key(v, recipe_key(r));
    let w = with_recipe(v, r);
    let f = |x: RecipeView| recipe_key(x);
    match first_with_key(v, recipe_key(r)) {
        Some(i) => {
            assert(w[i] == r);
        },
        None => {
            assert(w[v.len() as int] == r);
        },
    }
    assert forall|k: Seq<char>| #[trigger] keys_of(w).contains(k) == keys_of(v).insert(recipe_key(r)).contains(k) by {
        if keys_of(w).contains(k) {
            assert(w.map_values(f).contains(k));
            let n = choose|n: int| 0 <= n < w.map_values(f).len() && w.map_values(f)[n] == k;
            if k != recipe_key(r) {
                assert(n < v.len() && w[n] == v[n]);
                assert(v.map_values(f)[n] == k);
                assert(v.map_values(f).contains(k));
            }
        }
        if keys_of(v).contains(k) {
            assert(v.map_values(f).contains(k));
            let n = choose|n: int| 0 <= n < v.map_values(f).len() && v.map_values(f)[n] == k;
            match first_with_key(v, recipe_key(r)) {
                Some(i) => {
                    if n == i {
                        assert(w.map_values(f)[n] == recipe_key(r));
                    } else {
                        assert(w.map_values(f)[n] == k);
                    }
                },
                None => {
                    assert(w.map_values(f)[n] == k);
                },
            }
            assert(w.map_values(f).contains(k) || k == recipe_key(r));
        }
        if k == recipe_key(r) {
            match first_with_key(v, recipe_key(r)) {
                Some(i) => {
                    assert(w.map_values(f)[i] == k);
                },
                None => {
                    assert(w.map_values(f)[v.len() as int] == k);
                },
            }
        }
    }
    assert(keys_of(w) =~= keys_of(v).insert(recipe_key(r)));
}

/// The recipe-book key of a recipe.
pub fn recipe_id(recipe: &DynamicRecipe) -> (r: String)
    ensures
        r@ == recipe_key(recipe_view(*recipe)),
{
    let declared = match recipe {
        DynamicRecipe::Crafting(CraftingRecipe::Shaped { recipe_id, .. }) => recipe_id,
        DynamicRecipe::Crafting(CraftingRecipe::Shapeless { recipe_id, .. }) => recipe_id,
        DynamicRecipe::Cooking(_, c) => &c.recipe_id,
    };
    canonicalize_recipe_id(declared.as_str())
}

impl<Res> RecipeRuntime<Res> {
    /// Nothing published yet, with the given (empty) resources.
    pub fn new(resources: Res) -> (r: RecipeRuntime<Res>)
        ensures
            r.dynamic_recipes@ == Seq::<Arc<DynamicRecipe>>::empty(),
            r.tags.tags@ == Seq::<(String, TagDefinition)>::empty(),
            r.functions@ == Seq::<(String, Vec<String>)>::empty(),
            r.resources == resources,
            r.generation == 0,
    {
        RecipeRuntime {
            dynamic_recipes: Vec::new(),
            tags: TagSnapshot {
                tags: Vec::new(),
                vanilla: VanillaElements { items: Vec::new(), blocks: Vec::new(), fluids: Vec::new() },
            },
            functions: Vec::new(),
            resources,
            generation: 0,
        }
    }

    /// Adds one recipe: it replaces the first served recipe with the same
    /// recipe-book key, or joins the end; the generation advances.
    pub fn add_recipe(&mut self, recipe: DynamicRecipe)
        ensures
            served_views(final(self).dynamic_recipes@) == with_recipe(
                served_views(old(self).dynamic_recipes@),
                recipe_view(recipe),
            ),
            final(self).tags == old(self).tags,
            final(self).functions@ == old(self).functions@,
            final(self).resources == old(self).resources,
            final(self).generation == next_generation(old(self).generation),
    {
        let key = recipe_id(&recipe);
        let ghost views = served_views(self.dynamic_recipes@);
        let ghost rv = recipe_view(recipe);
        let mut i: usize = 0;
        assert(views.skip(0) =~= views);
        while i < self.dynamic_recipes.len()
            invariant
                views == served_views(old(self).dynamic_recipes@),
                self.dynamic_recipes@ == old(self).dynamic_recipes@,
                self.tags == old(self).tags,
                self.functions@ == old(self).functions@,
                self.resources == old(self).resources,
                self.generation == old(self).generation,
                recipe_view(recipe) == rv,
                key@ == recipe_key(rv),
                i <= self.dynamic_recipes.len(),
                first_with_key(views, key@) == (match first_with_key(views.skip(i as int), key@) {
                    Some(j) => Some(j + i),
                    None => None,
                }),
            decreases self.dynamic_recipes.len() - i,
        {
            assert(views.skip(i as int)[0] == views[i as int]);
            let existing = recipe_id(&self.dynamic_recipes[i]);
            if crate::text::chars_eq(&str_chars(existing.as_str()), &str_chars(key.as_str())) {
                let shared = Arc::new(recipe);
                assert(recipe_view(*shared) == rv);
                self.dynamic_recipes.set(i, shared);
                assert(served_views(self.dynamic_recipes@) =~= views.update(i as int, rv));
                self.generation = self.generation.wrapping_add(1);
                return;
            }
            assert(views.skip(i as int).drop_first() =~= views.skip(i + 1));
            i = i + 1;
        }
        assert(views.skip(i as int).len() == 0);
        let shared = Arc::new(recipe);
        assert(recipe_view(*shared) == rv);
        self.dynamic_recipes.push(shared);
        assert(served_views(self.dynamic_recipes@) =~= views.push(rv));
        self.generation = self.generation.wrapping_add(1);
    }

    /// Publishes a new set of dynamic recipes; tags, functions and
    /// resources stay as published.
    pub fn replace_dynamic_recipes(&mut self, recipes: Vec<DynamicRecipe>)
        ensures
            served_views(final(self).dynamic_recipes@) == recipe_views(recipes@),
            final(self).tags == old(self).tags,
            final(self).functions@ == old(self).functions@,
            final(self).resources == old(self).resources,
            final(self).generation == next_generation(old(self).generation),
    {
        self.dynamic_recipes = share_recipes(recipes);
        self.generation = self.generation.wrapping_add(1);
    }

    /// Publishes a whole datapack snapshot at once.  Tags and functions
    /// come filed by id, so each tag id and each function id is published
    /// once, in `String` order.
    pub fn replace_datapack_snapshot(
        &mut self,
        recipes: Vec<DynamicRecipe>,
        tags: KeyedFiles<TagDefinition>,
        vanilla: VanillaElements,
        functions: KeyedFiles<Vec<String>>,
        resources: Res,
    )
        ensures
            served_views(final(self).dynamic_recipes@) == recipe_views(recipes@),
            final(self).tags.tags@ == tags.pairs(),
            final(self).tags.vanilla == vanilla,
            keys_sorted(final(self).tags.tags@),
            final(self).functions@ == functions.pairs(),
            strictly_sorted(ids_of(final(self).functions@)),
            final(self).resources == resources,
            final(self).generation == next_generation(old(self).generation),
    {
        self.dynamic_recipes = share_recipes(recipes);
        let pairs = tags.into_pairs();
        proof {
            assert(crate::datapack::tags::key_seq(pairs@) =~= ids_of(pairs@));
        }
        self.tags = TagSnapshot { tags: pairs, vanilla };
        self.functions = functions.into_pairs();
        self.resources = resources;
        self.generation = self.generation.wrapping_add(1);
    }

    /// The published raw resources.
    pub fn datapack_resources(&self) -> (r: &Res)
        ensures
            *r == self.resources,
    {
        &self.resources
    }

    /// The published tags.
    pub fn tag_snapshot(&self) -> (r: &TagSnapshot)
        ensures
            *r == self.tags,
    {
        &self.tags
    }

    /// The commands of function `id`, when one is published.
    pub fn function(&self, id: &str) -> (r: Option<Vec<String>>)
        ensures
            match function_lookup(self.functions@, id@) {
                Some(cmds) => r matches Some(v) && sview(v@) == cmds,
                None => r is None,
            },
    {
        let key = str_chars(id);
        let mut i: usize = 0;
        assert(self.functions@.skip(0) =~= self.functions@);
        while i < self.functions.len()
            invariant
                i <= self.functions.len(),
                key@ == id@,
                function_lookup(self.functions@, id@) == function_lookup(self.functions@.skip(i as int), id@),
            decreases self.functions.len() - i,
        {
            proof {
                assert(self.functions@.skip(i as int)[0] == self.functions@[i as int]);
                assert(self.functions@.skip(i as int).drop_first() =~= self.functions@.skip(i + 1));
            }
            let name = str_chars(self.functions[i].0.as_str());
            if chars_eq(&name, &key) {
                return Some(copy_strings(&self.functions[i].1));
            }
            i = i + 1;
        }
        None
    }

    /// The names of the published functions, in order.
    pub fn function_ids(&self) -> (r: Vec<String>)
        ensures
            sview(r@) == self.functions@.map_values(|p: (String, Vec<String>)| p.0@),
    {
        let mut out: Vec<String> = Vec::new();
        let mut i: usize = 0;
        while i < self.functions.len()
            invariant
                i <= self.functions.len(),
                sview(out@) == self.functions@.take(i as int).map_values(|p: (String, Vec<String>)| p.0@),
            decreases self.functions.len() - i,
        {
            let ghost before = sview(out@);
            out.push(copy_string(&self.functions[i].0));
            assert(sview(out@) =~= before.push(self.functions@[i as int].0@));
            assert(self.functions@.take(i + 1).map_values(|p: (String, Vec<String>)| p.0@) =~= self.functions@.take(i as int).map_values(|p: (String, Vec<String>)| p.0@).push(self.functions@[i as int].0@));
            i = i + 1;
        }
        assert(self.functions@.take(self.functions.len() as int) =~= self.functions@);
        out
    }

    /// The recipe-book keys a player's book may hold: those of the
    /// generated vanilla recipes and those of the served recipes, each
    /// once, in key order.
    pub fn valid_recipe_ids(&self, vanilla_ids: &Vec<String>) -> (r: Vec<String>)
        ensures
            crate::sorted::strictly_sorted(sview(r@)),
            sview(r@).to_set() == built_in_keys(vanilla_ids@).union(served_keys(self.dynamic_recipes@)),
    {
        let mut keys: Vec<Vec<char>> = Vec::new();
        assert(crate::text::vview(keys@).to_set() =~= Set::<Seq<char>>::empty());
        insert_keys(&mut keys, vanilla_ids);
        let ghost base = crate::text::vview(keys@).to_set();
        let mut i: usize = 0;
        while i < self.dynamic_recipes.len()
            invariant
                i <= self.dynamic_recipes.len(),
                crate::sorted::strictly_sorted(crate::text::vview(keys@)),
                base == Set::<Seq<char>>::empty().union(built_in_keys(vanilla_ids@)),
                crate::text::vview(keys@).to_set() == base.union(
                    served_keys(self.dynamic_recipes@.take(i as int)),
                ),
            decreases self.dynamic_recipes.len() - i,
        {
            let key = recipe_id(&self.dynamic_recipes[i]);
            crate::sorted::sorted_insert(&mut keys, str_chars(key.as_str()));
            proof {
                let f = |r: RecipeView| recipe_key(r);
                let before = served_views(self.dynamic_recipes@.take(i as int)).map_values(f);
                assert(served_views(self.dynamic_recipes@.take(i + 1)).map_values(f) =~= before.push(key@));
                before.lemma_push_to_set_commute(key@);
            }
            i = i + 1;
        }
        assert(self.dynamic_recipes@.take(self.dynamic_recipes.len() as int) =~= self.dynamic_recipes@);
        assert(Set::<Seq<char>>::empty().union(built_in_keys(vanilla_ids@)) =~= built_in_keys(vanilla_ids@));
        crate::sorted::strings_from_chars(&keys)
    }

    /// The recipe a recipe-book display number stands for: the displayable
    /// generated crafting recipes come first, then the generated cooking
    /// recipes (both by their ids as generated), then the served recipes
    /// (by their keys); other numbers stand for none.
    pub fn recipe_id_from_display_id(
        &self,
        display_id: i32,
        crafting_ids: &Vec<String>,
        cooking_ids: &Vec<String>,
    ) -> (r: Option<String>)
        ensures
            ({
                let d = display_id as int;
                let c = crafting_ids@.len() as int;
                let k = cooking_ids@.len() as int;
                let n = self.dynamic_recipes@.len() as int;
                if d < 0 {
                    r is None
                } else if d < c {
                    r matches Some(s) && s@ == crafting_ids@[d]@
                } else if d < c + k {
                    r matches Some(s) && s@ == cooking_ids@[d - c]@
                } else if d < c + k + n {
                    r matches Some(s) && s@ == recipe_key(served_views(self.dynamic_recipes@)[d - c - k])
                } else {
                    r is None
                }
            }),
    {
        if display_id < 0 {
            return None;
        }
        let d = display_id as usize;
        if d < crafting_ids.len() {
            return Some(copy_string(&crafting_ids[d]));
        }
        let cooking_index = d - crafting_ids.len();
        if cooking_index < cooking_ids.len() {
            return Some(copy_string(&cooking_ids[cooking_index]));
        }
        let dynamic_index = cooking_index - cooking_ids.len();
        if dynamic_index < self.dynamic_recipes.len() {
            Some(recipe_id(&self.dynamic_recipes[dynamic_index]))
        } else {
            None
        }
    }

    pub fn datapack_generation(&self) -> (r: u64)
        ensures
            r == self.generation,
    {
        self.generation
    }
}

/// The recipe-book keys of the generated vanilla recipes, from their ids.
pub open spec fn built_in_keys(vanilla_ids: Seq<String>) -> Set<Seq<char>> {
    sview(vanilla_ids).map_values(|id: Seq<char>| canonical_recipe_id(id)).to_set()
}

/// The recipe-book keys of the served recipes.
pub open spec fn served_keys(v: Seq<Arc<DynamicRecipe>>) -> Set<Seq<char>> {
    served_views(v).map_values(|r: RecipeView| recipe_key(r)).to_set()
}

/// Inserts the key of each id of `ids` into a sorted key list.
fn insert_keys(keys: &mut Vec<Vec<char>>, ids: &Vec<String>)
    requires
        crate::sorted::strictly_sorted(crate::text::vview(old(keys)@)),
    ensures
        crate::sorted::strictly_sorted(crate::text::vview(final(keys)@)),
        crate::text::vview(final(keys)@).to_set() == crate::text::vview(old(keys)@).to_set().union(
            built_in_keys(ids@),
        ),
{
    let ghost start = crate::text::vview(keys@).to_set();
    let mut i: usize = 0;
    while i < ids.len()
        invariant
            i <= ids.len(),
            crate::sorted::strictly_sorted(crate::text::vview(keys@)),
            crate::text::vview(keys@).to_set() == start.union(built_in_keys(ids@.take(i as int))),
        decreases ids.len() - i,
    {
        let key = canonicalize_recipe_id(ids[i].as_str());
        crate::sorted::sorted_insert(keys, str_chars(key.as_str()));
        proof {
            let f = |id: Seq<char>| canonical_recipe_id(id);
            assert(sview(ids@.take(i + 1)).map_values(f) =~= sview(ids@.take(i as int)).map_values(f).push(
                key@,
            ));
            assert(built_in_keys(ids@.take(i + 1)) =~= built_in_keys(ids@.take(i as int)).insert(key@)) by {
                sview(ids@.take(i as int)).map_values(f).lemma_push_to_set_commute(key@);
            }
        }
        i = i + 1;
    }
    assert(ids@.take(ids.len() as int) =~= ids@);
}

/// The recipe-book keys of the generated vanilla recipes, each once, in
/// key order.
pub fn built_in_recipe_ids(vanilla_ids: &Vec<String>) -> (r: Vec<String>)
    ensures
        crate::sorted::strictly_sorted(sview(r@)),
        sview(r@).to_set() == built_in_keys(vanilla_ids@),
{
    let mut keys: Vec<Vec<char>> = Vec::new();
    assert(crate::text::vview(keys@).to_set() =~= Set::<Seq<char>>::empty());
    insert_keys(&mut keys, vanilla_ids);
    assert(Set::<Seq<char>>::empty().union(built_in_keys(vanilla_ids@)) =~= built_in_keys(vanilla_ids@));
    crate::sorted::strings_from_chars(&keys)
}

/// The recipes, each in a shared box.
fn share_recipes(recipes: Vec<DynamicRecipe>) -> (r: Vec<Arc<DynamicRecipe>>)
    ensures
        served_views(r@) == recipe_views(recipes@),
{
    let mut out: Vec<Arc<DynamicRecipe>> = Vec::new();
    let mut rest = recipes;
    let ghost all = recipe_views(rest@);
    assert(all.skip(0) =~= all);
    assert(served_views(out@) =~= all.take(0));
    while rest.len() > 0
        invariant
            all.len() == out@.len() + rest@.len(),
            served_views(out@) == all.take(out@.len() as int),
            recipe_views(rest@) == all.skip(out@.len() as int),
        decreases rest.len(),
    {
        let ghost n: int = out@.len() as int;
        let ghost before = rest@;
        let x = rest.remove(0);
        assert(recipe_view(x) == all[n as int]) by {
            assert(recipe_views(before)[0] == all.skip(n as int)[0]);
        }
        out.push(Arc::new(x));
        assert(served_views(out@) =~= all.take(out@.len() as int));
        assert(recipe_views(rest@) =~= all.skip(out@.len() as int)) by {
            assert(rest@ =~= before.subrange(1, before.len() as int));
            assert forall|k: int| 0 <= k < rest@.len() implies recipe_views(rest@)[k] == all.skip(
                n + 1 as int,
            )[k] by {
                assert(rest@[k] == before[k + 1]);
                assert(recipe_views(before)[k + 1] == all.skip(n as int)[k + 1]);
            }
        }
    }
    assert(all.take(all.len() as int) =~= all);
    out
}

/// A copy of a list of strings.
fn copy_strings(v: &Vec<String>) -> (r: Vec<String>)
    ensures
        sview(r@) == sview(v@),
{
    let mut out: Vec<String> = Vec::new();
    let mut i: usize = 0;
    while i < v.len()
        invariant
            i <= v.len(),
            sview(out@) == sview(v@.take(i as int)),
        decreases v.len() - i,
    {
        let ghost before = sview(out@);
        out.push(copy_string(&v[i]));
        assert(sview(out@) =~= before.push(v@[i as int]@));
        assert(sview(v@.take(i + 1)) =~= sview(v@.take(i as int)).push(v@[i as int]@));
        i = i + 1;
    }
    assert(v@.take(v.len() as int) =~= v@);
    out
}

/// What a publication serves: a read of function `id` right after a
/// snapshot is published gives back the commands that the snapshot holds
/// for it, and the generation has advanced.
pub proof fn lemma_publish_then_read(functions: Seq<(String, Vec<String>)>, id: Seq<char>, i: int, g: u64)
    requires
        0 <= i < functions.len(),
        functions[i].0@ == id,
        forall|j: int| 0 <= j < i ==> functions[j].0@ != id,
    ensures
        function_lookup(functions, id) == Some(sview(functions[i].1@)),
        next_generation(g) != g,
    decreases i,
{
    if i > 0 {
        assert forall|j: int| 0 <= j < i - 1 implies functions.drop_first()[j].0@ != id by {
            assert(functions.drop_first()[j] == functions[j + 1]);
        }
        lemma_publish_then_read(functions.drop_first(), id, i - 1, g);
    }
}

} // verus!
