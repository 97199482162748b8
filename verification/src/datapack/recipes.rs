//! Datapack recipes: the recipe files a pack may hold (shaped and shapeless
//! crafting, and the four cooking kinds) read from their JSON values, with
//! every rule that refuses a malformed file.
use vstd::prelude::*;

use crate::datapack::json::{Json, as_bool, as_i64, as_str, bool_of, get, i64_of, json_get, opt, str_of, u64_of};
use crate::datapack::tags::{VanillaElements, list_contains};
use crate::datapack::DataPackError;
use crate::datapack::resources::recipe_error;
use crate::identifier::minecraft_prefix;
use crate::recipe::{canonical_recipe_id, canonicalize_recipe_id};
use crate::sorted::sview;
use crate::text::{str_chars, string_from_str, strip_prefix_or_keep, strip_prefix_or_keep_str, utf8_len};

verus! {

/// What a recipe slot accepts: one item, any of several items, or any item
/// of a tag.
#[derive(Debug)]
pub enum RecipeIngredient {
    Simple(String),
    OneOf(Vec<String>),
    Tagged(String),
}

/// A recipe ingredient with its ids as character sequences.
pub enum IngredientView {
    Simple(Seq<char>),
    OneOf(Seq<Seq<char>>),
    Tagged(Seq<char>),
}

impl View for RecipeIngredient {
    type V = IngredientView;

    open spec fn view(&self) -> IngredientView {
        match self {
            RecipeIngredient::Simple(id) => IngredientView::Simple(id@),
            RecipeIngredient::OneOf(ids) => IngredientView::OneOf(sview(ids@)),
            RecipeIngredient::Tagged(id) => IngredientView::Tagged(id@),
        }
    }
}

/// Whether the item registry holds the item `id` (vanilla keys carry no
/// namespace, so `minecraft:` is dropped first).
pub open spec fn known_item(id: Seq<char>, vanilla: VanillaElements) -> bool {
    sview(vanilla.items@).contains(strip_prefix_or_keep(id, minecraft_prefix()))
}

/// The item id an ingredient or result names, in canonical form, or the
/// message that refuses an unknown item.
pub open spec fn item_of(raw: Seq<char>, vanilla: VanillaElements) -> Result<Seq<char>, Seq<char>> {
    let id = canonical_recipe_id(raw);
    if known_item(id, vanilla) {
        Ok(id)
    } else {
        Err("unknown item "@ + id)
    }
}

/// The item ids a list of parsed alternatives stands for, in order: a
/// single item, or the items of a list; a tag cannot be one of them.
pub open spec fn flatten_alternatives(ins: Seq<IngredientView>) -> Result<Seq<Seq<char>>, Seq<char>>
    decreases ins.len(),
{
    if ins.len() == 0 {
        Ok(Seq::empty())
    } else {
        match flatten_alternatives(ins.drop_last()) {
            Err(m) => Err(m),
            Ok(ids) => match ins.last() {
                IngredientView::Simple(id) => Ok(ids.push(id)),
                IngredientView::OneOf(alts) => Ok(ids + alts),
                IngredientView::Tagged(_) => Err("tag alternatives are not representable in OneOf"@),
            },
        }
    }
}

/// What an ingredient value reads as, or the message that refuses it: an
/// array lists alternatives (read one by one, the first refusal winning),
/// which must not be empty and are flattened into one list of items; an
/// object names an `item` (which must exist) or else a `tag`.
pub open spec fn ingredient_of(v: Json, vanilla: VanillaElements) -> Result<IngredientView, Seq<char>>
    decreases v, 1int,
{
    match v {
        Json::Array(a) => {
            proof {
                assert(decreases_to!(v => a));
            }
            match ingredients_of(a@, vanilla) {
                Err(m) => Err(m),
                Ok(ins) => if ins.len() == 0 {
                    Err("ingredient alternatives cannot be empty"@)
                } else {
                    match flatten_alternatives(ins) {
                        Err(m) => Err(m),
                        Ok(ids) => Ok(IngredientView::OneOf(ids)),
                    }
                },
            }
        },
        Json::Object(_) => match str_of(json_get(v, "item"@)) {
            Some(raw) => match item_of(raw, vanilla) {
                Ok(id) => Ok(IngredientView::Simple(id)),
                Err(m) => Err(m),
            },
            None => match str_of(json_get(v, "tag"@)) {
                Some(raw) => Ok(IngredientView::Tagged(canonical_recipe_id(raw))),
                None => Err("ingredient requires item or tag"@),
            },
        },
        _ => Err("ingredient must be an object or array"@),
    }
}

/// The ingredients a list of values reads as, in order, or the first
/// refusal.
pub open spec fn ingredients_of(vs: Seq<Json>, vanilla: VanillaElements) -> Result<Seq<IngredientView>, Seq<char>>
    decreases vs, 0int,
{
    if vs.len() == 0 {
        Ok(Seq::empty())
    } else {
        match ingredients_of(vs.drop_last(), vanilla) {
            Err(m) => Err(m),
            Ok(ins) => match ingredient_of(vs.last(), vanilla) {
                Err(m) => Err(m),
                Ok(i) => Ok(ins.push(i)),
            },
        }
    }
}

/// The views of a list of ingredients.
pub open spec fn ingredient_views(v: Seq<RecipeIngredient>) -> Seq<IngredientView> {
    Seq::new(v.len(), |i: int| v[i]@)
}

/// A refusal of the recipe file `path` with a fixed message.
fn refuse(path: &str, message: &str) -> (r: DataPackError)
    ensures
        recipe_error(r, path@, message@),
{
    DataPackError::InvalidRecipe { path: string_from_str(path), message: string_from_str(message) }
}

/// Once a prefix of a list is refused, the whole list is refused the same
/// way.
proof fn lemma_ingredients_prefix_error(s: Seq<Json>, k: int, vanilla: VanillaElements)
    requires
        0 <= k <= s.len(),
        ingredients_of(s.take(k), vanilla) is Err,
    ensures
        ingredients_of(s, vanilla) == ingredients_of(s.take(k), vanilla),
    decreases s.len() - k,
{
    if k < s.len() {
        let t = s.take(k + 1);
        assert(t.drop_last() =~= s.take(k));
        lemma_ingredients_prefix_error(s, k + 1, vanilla);
    } else {
        assert(s.take(k) =~= s);
    }
}

/// Once a prefix of a list of alternatives is refused, the whole list is
/// refused the same way.
proof fn lemma_flatten_prefix_error(s: Seq<IngredientView>, k: int)
    requires
        0 <= k <= s.len(),
        flatten_alternatives(s.take(k)) is Err,
    ensures
        flatten_alternatives(s) == flatten_alternatives(s.take(k)),
    decreases s.len() - k,
{
    if k < s.len() {
        let t = s.take(k + 1);
        assert(t.drop_last() =~= s.take(k));
        lemma_flatten_prefix_error(s, k + 1);
    } else {
        assert(s.take(k) =~= s);
    }
}

/// The canonical id of an item that must exist.
fn resolve_item(path: &str, raw: &str, vanilla: &VanillaElements) -> (r: Result<String, DataPackError>)
    ensures
        match item_of(raw@, *vanilla) {
            Ok(id) => r matches Ok(s) && s@ == id,
            Err(m) => r matches Err(e) && recipe_error(e, path@, m),
        },
{
    let id = canonicalize_recipe_id(raw);
    let chars = str_chars(id.as_str());
    let key = strip_prefix_or_keep_str(&chars, "minecraft:");
    proof {
        reveal_strlit("minecraft:");
        assert("minecraft:"@ =~= minecraft_prefix());
    }
    if list_contains(&vanilla.items, &key) {
        Ok(id)
    } else {
        let message = crate::datapack::text3("unknown item ", &chars, "");
        proof {
            reveal_strlit("");
            assert(message@ =~= "unknown item "@ + id@);
        }
        Err(DataPackError::InvalidRecipe { path: string_from_str(path), message })
    }
}

/// An ingredient of a recipe file; errors name the file as `path`.
pub fn parse_ingredient(path: &str, value: &Json, vanilla: &VanillaElements) -> (r: Result<
    RecipeIngredient,
    DataPackError,
>)
    ensures
        match ingredient_of(*value, *vanilla) {
            Ok(i) => r matches Ok(x) && x@ == i,
            Err(m) => r matches Err(e) && recipe_error(e, path@, m),
        },
    decreases value,
{
    match value {
        Json::Array(items) => {
            let mut parsed: Vec<RecipeIngredient> = Vec::new();
            let mut i: usize = 0;
            assert(items@.take(0) =~= Seq::<Json>::empty());
            assert(ingredient_views(parsed@) =~= Seq::<IngredientView>::empty());
            while i < items.len()
                invariant
                    *value == Json::Array(*items),
                    i <= items.len(),
                    ingredients_of(items@.take(i as int), *vanilla) == Ok::<Seq<IngredientView>, Seq<char>>(
                        ingredient_views(parsed@),
                    ),
                decreases items.len() - i,
            {
                proof {
                    assert(decreases_to!(*value => *items));
                    assert(decreases_to!(*items => items@));
                    assert(decreases_to!(items@ => items@[i as int]));
                    assert(items@.take(i + 1).drop_last() =~= items@.take(i as int));
                    assert(items@.take(i + 1).last() == items@[i as int]);
                }
                match parse_ingredient(path, &items[i], vanilla) {
                    Ok(x) => {
                        let ghost before = parsed@;
                        parsed.push(x);
                        assert(parsed@.drop_last() =~= before);
                        assert(ingredient_views(parsed@) =~= ingredient_views(before).push(
                            parsed@.last()@,
                        ));
                    },
                    Err(e) => {
                        proof {
                            lemma_ingredients_prefix_error(items@, i + 1, *vanilla);
                        }
                        return Err(e);
                    },
                }
                i = i + 1;
            }
            assert(items@.take(items.len() as int) =~= items@);
            if parsed.len() == 0 {
                return Err(refuse(path, "ingredient alternatives cannot be empty"));
            }
            let ghost views = ingredient_views(parsed@);
            let mut ids: Vec<String> = Vec::new();
            let mut j: usize = 0;
            assert(views.take(0) =~= Seq::<IngredientView>::empty());
            assert(sview(ids@) =~= Seq::<Seq<char>>::empty());
            while j < parsed.len()
                invariant
                    *value == Json::Array(*items),
                    ingredients_of(items@, *vanilla) == Ok::<Seq<IngredientView>, Seq<char>>(views),
                    views.len() == parsed@.len() > 0,
                    views == ingredient_views(parsed@),
                    j <= parsed.len(),
                    flatten_alternatives(views.take(j as int)) == Ok::<Seq<Seq<char>>, Seq<char>>(
                        sview(ids@),
                    ),
                decreases parsed.len() - j,
            {
                assert(views.take(j + 1).drop_last() =~= views.take(j as int));
                assert(views.take(j + 1).last() == parsed@[j as int]@);
                match &parsed[j] {
                    RecipeIngredient::Simple(id) => {
                        let ghost prev = ids@;
                        ids.push(crate::datapack::copy_string(id));
                        assert(ids@.drop_last() =~= prev);
                        assert(sview(ids@) =~= sview(prev).push(id@));
                    },
                    RecipeIngredient::OneOf(alts) => {
                        let ghost before = sview(ids@);
                        let mut k: usize = 0;
                        while k < alts.len()
                            invariant
                                k <= alts.len(),
                                sview(ids@) == before + sview(alts@).take(k as int),
                            decreases alts.len() - k,
                        {
                            let ghost prev = ids@;
                            let c = crate::datapack::copy_string(&alts[k]);
                            ids.push(c);
                            assert(ids@.drop_last() =~= prev);
                            assert(sview(ids@) =~= sview(prev).push(alts@[k as int]@));
                            assert(sview(alts@).take(k + 1) =~= sview(alts@).take(k as int).push(
                                alts@[k as int]@,
                            ));
                            assert(sview(ids@) =~= before + sview(alts@).take(k + 1));
                            k = k + 1;
                        }
                        assert(sview(alts@).take(alts.len() as int) =~= sview(alts@));
                    },
                    RecipeIngredient::Tagged(_) => {
                        proof {
                            lemma_flatten_prefix_error(views, j + 1);
                        }
                        return Err(refuse(path, "tag alternatives are not representable in OneOf"));
                    },
                }
                j = j + 1;
            }
            assert(views.take(parsed.len() as int) =~= views);
            Ok(RecipeIngredient::OneOf(ids))
        },
        Json::Object(_) => {
            match as_str(get(value, "item")) {
                Some(raw) => {
                    match resolve_item(path, raw.as_str(), vanilla) {
                        Ok(id) => Ok(RecipeIngredient::Simple(id)),
                        Err(e) => Err(e),
                    }
                },
                None => match as_str(get(value, "tag")) {
                    Some(raw) => Ok(RecipeIngredient::Tagged(canonicalize_recipe_id(raw.as_str()))),
                    None => Err(refuse(path, "ingredient requires item or tag")),
                },
            }
        },
        _ => Err(refuse(path, "ingredient must be an object or array")),
    }
}

/// An NBT value as a recipe result's components carry it.  A floating
/// point number keeps its decimal text.
#[derive(Debug)]
pub enum Nbt {
    Byte(i8),
    Int(i32),
    Long(i64),
    Double(String),
    Text(String),
    List(Vec<Nbt>),
    Compound(Vec<(String, Nbt)>),
}

/// An NBT value with its texts as character sequences.
pub enum NbtView {
    Byte(i8),
    Int(i32),
    Long(i64),
    Double(Seq<char>),
    Text(Seq<char>),
    List(Seq<NbtView>),
    Compound(Seq<(Seq<char>, NbtView)>),
}

/// The view of an NBT value.
pub open spec fn nbt_view(n: Nbt) -> NbtView
    decreases n, 1int,
{
    match n {
        Nbt::Byte(b) => NbtView::Byte(b),
        Nbt::Int(i) => NbtView::Int(i),
        Nbt::Long(l) => NbtView::Long(l),
        Nbt::Double(t) => NbtView::Double(t@),
        Nbt::Text(t) => NbtView::Text(t@),
        Nbt::List(items) => {
            proof {
                assert(decreases_to!(n => items));
            }
            NbtView::List(nbt_list_view(items@))
        },
        Nbt::Compound(entries) => {
            proof {
                assert(decreases_to!(n => entries));
            }
            NbtView::Compound(nbt_entries_view(entries@))
        },
    }
}

/// The views of a list of NBT values.
pub open spec fn nbt_list_view(s: Seq<Nbt>) -> Seq<NbtView>
    decreases s, 0int,
{
    if s.len() == 0 {
        Seq::empty()
    } else {
        nbt_list_view(s.drop_last()).push(nbt_view(s.last()))
    }
}

/// The views of the entries of an NBT compound.
pub open spec fn nbt_entries_view(s: Seq<(String, Nbt)>) -> Seq<(Seq<char>, NbtView)>
    decreases s, 0int,
{
    if s.len() == 0 {
        Seq::empty()
    } else {
        proof {
            assert(decreases_to!(s => s.last()));
        }
        nbt_entries_view(s.drop_last()).push((s.last().0@, nbt_view(s.last().1)))
    }
}

/// The NBT value a component's JSON value stands for, or why it cannot:
/// booleans are bytes, integers ints when they fit and longs otherwise,
/// other numbers doubles, arrays lists and objects compounds (entry by
/// entry); null has no NBT form.
pub open spec fn nbt_of(v: Json) -> Result<NbtView, Seq<char>>
    decreases v, 1int,
{
    match v {
        Json::Null => Err("null is not a valid NBT component value"@),
        Json::Bool(b) => Ok(NbtView::Byte(if b { 1i8 } else { 0i8 })),
        Json::Text(t) => Ok(NbtView::Text(t@)),
        Json::Number(n) => match n.as_i64 {
            Some(x) => if i32::MIN <= x <= i32::MAX {
                Ok(NbtView::Int(x as i32))
            } else {
                Ok(NbtView::Long(x))
            },
            None => Ok(NbtView::Double(n.text@)),
        },
        Json::Array(items) => {
            proof {
                assert(decreases_to!(v => items));
            }
            match nbt_list_of(items@) {
                Ok(l) => Ok(NbtView::List(l)),
                Err(m) => Err(m),
            }
        },
        Json::Object(entries) => {
            proof {
                assert(decreases_to!(v => entries));
            }
            match nbt_entries_of(entries@) {
                Ok(e) => Ok(NbtView::Compound(e)),
                Err(m) => Err(m),
            }
        },
    }
}

/// The NBT values of a list of JSON values, or the first refusal.
pub open spec fn nbt_list_of(s: Seq<Json>) -> Result<Seq<NbtView>, Seq<char>>
    decreases s, 0int,
{
    if s.len() == 0 {
        Ok(Seq::empty())
    } else {
        match nbt_list_of(s.drop_last()) {
            Err(m) => Err(m),
            Ok(l) => match nbt_of(s.last()) {
                Err(m) => Err(m),
                Ok(x) => Ok(l.push(x)),
            },
        }
    }
}

/// The NBT entries of a JSON object's entries, or the first refusal.
pub open spec fn nbt_entries_of(s: Seq<(String, Json)>) -> Result<Seq<(Seq<char>, NbtView)>, Seq<char>>
    decreases s, 0int,
{
    if s.len() == 0 {
        Ok(Seq::empty())
    } else {
        proof {
            assert(decreases_to!(s => s.last()));
        }
        match nbt_entries_of(s.drop_last()) {
            Err(m) => Err(m),
            Ok(l) => match nbt_of(s.last().1) {
                Err(m) => Err(m),
                Ok(x) => Ok(l.push((s.last().0@, x))),
            },
        }
    }
}

proof fn lemma_nbt_list_prefix_error(s: Seq<Json>, k: int)
    requires
        0 <= k <= s.len(),
        nbt_list_of(s.take(k)) is Err,
    ensures
        nbt_list_of(s) == nbt_list_of(s.take(k)),
    decreases s.len() - k,
{
    if k < s.len() {
        assert(s.take(k + 1).drop_last() =~= s.take(k));
        lemma_nbt_list_prefix_error(s, k + 1);
    } else {
        assert(s.take(k) =~= s);
    }
}

proof fn lemma_nbt_entries_prefix_error(s: Seq<(String, Json)>, k: int)
    requires
        0 <= k <= s.len(),
        nbt_entries_of(s.take(k)) is Err,
    ensures
        nbt_entries_of(s) == nbt_entries_of(s.take(k)),
    decreases s.len() - k,
{
    if k < s.len() {
        assert(s.take(k + 1).drop_last() =~= s.take(k));
        lemma_nbt_entries_prefix_error(s, k + 1);
    } else {
        assert(s.take(k) =~= s);
    }
}

/// The NBT value of a component's JSON value, or why it has none.
pub fn json_value_to_nbt(value: &Json) -> (r: Result<Nbt, String>)
    ensures
        match nbt_of(*value) {
            Ok(n) => r matches Ok(x) && nbt_view(x) == n,
            Err(m) => r matches Err(e) && e@ == m,
        },
    decreases value, 1int,
{
    match value {
        Json::Null => Err(string_from_str("null is not a valid NBT component value")),
        Json::Bool(b) => Ok(Nbt::Byte(if *b { 1 } else { 0 })),
        Json::Text(t) => Ok(Nbt::Text(crate::datapack::copy_string(t))),
        Json::Number(n) => match n.as_i64 {
            Some(x) => if i32::MIN as i64 <= x && x <= i32::MAX as i64 {
                Ok(Nbt::Int(x as i32))
            } else {
                Ok(Nbt::Long(x))
            },
            None => Ok(Nbt::Double(crate::datapack::copy_string(&n.text))),
        },
        Json::Array(items) => {
            let mut out: Vec<Nbt> = Vec::new();
            let mut i: usize = 0;
            assert(items@.take(0) =~= Seq::<Json>::empty());
            assert(nbt_list_view(out@) =~= Seq::<NbtView>::empty());
            while i < items.len()
                invariant
                    *value == Json::Array(*items),
                    i <= items.len(),
                    nbt_list_of(items@.take(i as int)) == Ok::<Seq<NbtView>, Seq<char>>(
                        nbt_list_view(out@),
                    ),
                decreases items.len() - i,
            {
                proof {
                    assert(decreases_to!(*value => *items));
                    assert(decreases_to!(*items => items@));
                    assert(decreases_to!(items@ => items@[i as int]));
                    assert(items@.take(i + 1).drop_last() =~= items@.take(i as int));
                    assert(items@.take(i + 1).last() == items@[i as int]);
                }
                match json_value_to_nbt(&items[i]) {
                    Ok(x) => {
                        let ghost before = out@;
                        out.push(x);
                        assert(out@.drop_last() =~= before);
                    },
                    Err(e) => {
                        proof {
                            lemma_nbt_list_prefix_error(items@, i + 1);
                        }
                        return Err(e);
                    },
                }
                i = i + 1;
            }
            assert(items@.take(items.len() as int) =~= items@);
            Ok(Nbt::List(out))
        },
        Json::Object(entries) => match compound_of(value, entries) {
            Ok(out) => Ok(Nbt::Compound(out)),
            Err(e) => Err(e),
        },
    }
}

/// The NBT entries of an object's entries, or the first refusal.
fn compound_of(value: &Json, entries: &Vec<(String, Json)>) -> (r: Result<Vec<(String, Nbt)>, String>)
    requires
        *value == Json::Object(*entries),
    ensures
        match nbt_entries_of(entries@) {
            Ok(c) => r matches Ok(x) && nbt_entries_view(x@) == c,
            Err(m) => r matches Err(e) && e@ == m,
        },
    decreases value, 0int,
{
    let mut out: Vec<(String, Nbt)> = Vec::new();
    let mut i: usize = 0;
    assert(entries@.take(0) =~= Seq::<(String, Json)>::empty());
    assert(nbt_entries_view(out@) =~= Seq::<(Seq<char>, NbtView)>::empty());
    while i < entries.len()
        invariant
            *value == Json::Object(*entries),
            i <= entries.len(),
            nbt_entries_of(entries@.take(i as int)) == Ok::<Seq<(Seq<char>, NbtView)>, Seq<char>>(
                nbt_entries_view(out@),
            ),
        decreases entries.len() - i,
    {
        proof {
            assert((*value)->Object_0 == *entries);
            assert(decreases_to!(*value => (*value)->Object_0));
            assert(decreases_to!(*entries => entries@));
            assert(decreases_to!(entries@ => entries@[i as int]));
            assert(decreases_to!(entries@[i as int] => entries@[i as int].1));
            assert(entries@.take(i + 1).drop_last() =~= entries@.take(i as int));
            assert(entries@.take(i + 1).last() == entries@[i as int]);
        }
        match json_value_to_nbt(&entries[i].1) {
            Ok(x) => {
                let ghost before = out@;
                let key = crate::datapack::copy_string(&entries[i].0);
                out.push((key, x));
                assert(out@.drop_last() =~= before);
            },
            Err(e) => {
                proof {
                    lemma_nbt_entries_prefix_error(entries@, i + 1);
                }
                return Err(e);
            },
        }
        i = i + 1;
    }
    assert(entries@.take(entries.len() as int) =~= entries@);
    Ok(out)
}

/// The components of a recipe result: a JSON object's entries as an NBT
/// compound.
pub open spec fn components_of(v: Json) -> Result<Seq<(Seq<char>, NbtView)>, Seq<char>> {
    match v {
        Json::Object(entries) => nbt_entries_of(entries@),
        _ => Err("components must be an object"@),
    }
}

/// The NBT compound of a result's `components` object, or why it has none.
pub fn json_object_to_nbt(value: &Json) -> (r: Result<Vec<(String, Nbt)>, String>)
    ensures
        match components_of(*value) {
            Ok(c) => r matches Ok(x) && nbt_entries_view(x@) == c,
            Err(m) => r matches Err(e) && e@ == m,
        },
{
    match value {
        Json::Object(entries) => compound_of(value, entries),
        _ => Err(string_from_str("components must be an object")),
    }
}

/// What a recipe result gives: an item, a count and, optionally, the
/// components of the item.
#[derive(Debug)]
pub struct RecipeResult {
    pub item_id: String,
    pub count: u8,
    pub components: Option<Vec<(String, Nbt)>>,
}

/// A recipe result with its texts as character sequences.
pub struct ResultView {
    pub item_id: Seq<char>,
    pub count: u8,
    pub components: Option<Seq<(Seq<char>, NbtView)>>,
}

/// The view of a recipe result.
pub open spec fn result_view(r: RecipeResult) -> ResultView {
    ResultView {
        item_id: r.item_id@,
        count: r.count,
        components: match r.components {
            Some(c) => Some(nbt_entries_view(c@)),
            None => None,
        },
    }
}

/// The `id` of a result object, or else its `item` (an `id` of another
/// type does not fall back to `item`).
pub open spec fn result_item_field(o: Json) -> Option<Json> {
    match json_get(o, "id"@) {
        Some(x) => Some(x),
        None => json_get(o, "item"@),
    }
}

/// What a recipe's `result` reads as, or why it is refused: an object
/// naming an existing item by `id` (or `item`), with a `count` of 1 to 255
/// (1 when absent or not a non-negative integer) and optional
/// `components` that must convert to NBT.
pub open spec fn result_of(v: Option<Json>, vanilla: VanillaElements) -> Result<ResultView, Seq<char>> {
    match v {
        Some(o) => if o is Object {
            match str_of(result_item_field(o)) {
                None => Err("result requires id"@),
                Some(raw) => match item_of(raw, vanilla) {
                    Err(m) => Err(m),
                    Ok(id) => {
                        let count = match u64_of(json_get(o, "count"@)) {
                            Some(c) => c as int,
                            None => 1,
                        };
                        if !(1 <= count <= 255) {
                            Err("result count must be in 1..=255"@)
                        } else {
                            match json_get(o, "components"@) {
                                None => Ok(ResultView { item_id: id, count: count as u8, components: None }),
                                Some(c) => match components_of(c) {
                                    Ok(x) => Ok(ResultView { item_id: id, count: count as u8, components: Some(x) }),
                                    Err(m) => Err("invalid result components: "@ + m),
                                },
                            }
                        }
                    },
                },
            }
        } else {
            Err("result must be an object"@)
        },
        None => Err("result must be an object"@),
    }
}

/// The recipe-book category of a recipe.
#[derive(Clone, Copy, Debug, PartialEq, Eq, Structural)]
pub enum RecipeCategory {
    Building,
    Equipment,
    Redstone,
    Food,
    Blocks,
    Misc,
}

/// The category a recipe names; anything else is `misc`.
pub open spec fn category_of(v: Json) -> RecipeCategory {
    match str_of(json_get(v, "category"@)) {
        Some(c) => if c == "building"@ {
            RecipeCategory::Building
        } else if c == "equipment"@ {
            RecipeCategory::Equipment
        } else if c == "redstone"@ {
            RecipeCategory::Redstone
        } else if c == "food"@ {
            RecipeCategory::Food
        } else if c == "blocks"@ {
            RecipeCategory::Blocks
        } else {
            RecipeCategory::Misc
        },
        None => RecipeCategory::Misc,
    }
}

/// The category of a recipe value.
pub fn parse_category(value: &Json) -> (r: RecipeCategory)
    ensures
        r == category_of(*value),
{
    match as_str(get(value, "category")) {
        Some(c) => {
            let cs = str_chars(c.as_str());
            if crate::text::chars_eq_str(&cs, "building") {
                RecipeCategory::Building
            } else if crate::text::chars_eq_str(&cs, "equipment") {
                RecipeCategory::Equipment
            } else if crate::text::chars_eq_str(&cs, "redstone") {
                RecipeCategory::Redstone
            } else if crate::text::chars_eq_str(&cs, "food") {
                RecipeCategory::Food
            } else if crate::text::chars_eq_str(&cs, "blocks") {
                RecipeCategory::Blocks
            } else {
                RecipeCategory::Misc
            }
        },
        None => RecipeCategory::Misc,
    }
}

/// A recipe's result; errors name the file as `path`.
pub fn parse_result(path: &str, value: Option<&Json>, vanilla: &VanillaElements) -> (r: Result<
    RecipeResult,
    DataPackError,
>)
    ensures
        match result_of(opt(value), *vanilla) {
            Ok(v) => r matches Ok(x) && result_view(x) == v,
            Err(m) => r matches Err(e) && recipe_error(e, path@, m),
        },
{
    let o = match value {
        Some(o) => if matches!(o, Json::Object(_)) {
            o
        } else {
            return Err(refuse(path, "result must be an object"));
        },
        None => {
            return Err(refuse(path, "result must be an object"));
        },
    };
    let field = match get(o, "id") {
        Some(x) => Some(x),
        None => get(o, "item"),
    };
    let raw = match as_str(field) {
        Some(raw) => raw,
        None => {
            return Err(refuse(path, "result requires id"));
        },
    };
    let item_id = match resolve_item(path, raw.as_str(), vanilla) {
        Ok(id) => id,
        Err(e) => {
            return Err(e);
        },
    };
    let count: u64 = match crate::datapack::json::as_u64(get(o, "count")) {
        Some(c) => c,
        None => 1,
    };
    if count < 1 || count > 255 {
        return Err(refuse(path, "result count must be in 1..=255"));
    }
    let components = match get(o, "components") {
        None => None,
        Some(c) => match json_object_to_nbt(c) {
            Ok(x) => Some(x),
            Err(m) => {
                let mc = str_chars(m.as_str());
                let message = crate::datapack::text3("invalid result components: ", &mc, "");
                proof {
                    reveal_strlit("");
                    assert(message@ =~= "invalid result components: "@ + m@);
                }
                return Err(DataPackError::InvalidRecipe { path: string_from_str(path), message });
            },
        },
    };
    Ok(RecipeResult { item_id, count: count as u8, components })
}

/// The text `{:?}` gives for a character: the character quoted, with
/// quotes, backslashes and unprintable characters escaped.
pub uninterp spec fn char_debug_text(c: char) -> Seq<char>;

/// The `Debug` text of a character, from `format!("{c:?}")` of std; its
/// text is named, not stated.
#[verifier::external_body]
fn char_debug(c: char) -> (r: String)
    ensures
        r@ == char_debug_text(c),
{
    format!("{c:?}")
}

/// The rows of a pattern when every row is a string.
pub open spec fn pattern_rows_of(rows: Seq<Json>) -> Option<Seq<Seq<char>>>
    decreases rows.len(),
{
    if rows.len() == 0 {
        Some(Seq::empty())
    } else {
        match pattern_rows_of(rows.drop_last()) {
            None => None,
            Some(p) => match rows.last() {
                Json::Text(t) => Some(p.push(t@)),
                _ => None,
            },
        }
    }
}

/// A pattern has one to three rows of one to three bytes each.
pub open spec fn pattern_fits(p: Seq<Seq<char>>) -> bool {
    &&& 1 <= p.len() <= 3
    &&& forall|i: int| 0 <= i < p.len() ==> #[trigger] p[i].len() > 0 && utf8_len(p[i]) <= 3
}

/// The key entry for the key text `k` and ingredient value `v`, or why it
/// is refused: the key must be one character other than a space.
pub open spec fn key_entry_of(k: Seq<char>, v: Json, vanilla: VanillaElements) -> Result<
    (char, IngredientView),
    Seq<char>,
> {
    if k.len() == 0 {
        Err("crafting key cannot be empty"@)
    } else if k.len() > 1 || k[0] == ' ' {
        Err("crafting key entries must be one non-space character"@)
    } else {
        match ingredient_of(v, vanilla) {
            Ok(i) => Ok((k[0], i)),
            Err(m) => Err(m),
        }
    }
}

/// The key entries of a key object's entries, or the first refusal.
pub open spec fn key_entries_of(es: Seq<(String, Json)>, vanilla: VanillaElements) -> Result<
    Seq<(char, IngredientView)>,
    Seq<char>,
>
    decreases es.len(),
{
    if es.len() == 0 {
        Ok(Seq::empty())
    } else {
        match key_entries_of(es.drop_last(), vanilla) {
            Err(m) => Err(m),
            Ok(l) => match key_entry_of(es.last().0@, es.last().1, vanilla) {
                Err(m) => Err(m),
                Ok(x) => Ok(l.push(x)),
            },
        }
    }
}

/// The key of a shaped recipe, which must be an object.
pub open spec fn key_of(v: Option<Json>, vanilla: VanillaElements) -> Result<Seq<(char, IngredientView)>, Seq<char>> {
    match v {
        Some(Json::Object(es)) => key_entries_of(es@, vanilla),
        _ => Err("crafting_shaped.key must be an object"@),
    }
}

/// The characters a key defines.
pub open spec fn key_chars(key: Seq<(char, IngredientView)>) -> Seq<char> {
    Seq::new(key.len(), |i: int| key[i].0)
}

/// The first character of a row, other than a space, that the key does
/// not define.
pub open spec fn first_unknown_in(row: Seq<char>, keys: Seq<char>) -> Option<char>
    decreases row.len(),
{
    if row.len() == 0 {
        None
    } else if row[0] != ' ' && !keys.contains(row[0]) {
        Some(row[0])
    } else {
        first_unknown_in(row.drop_first(), keys)
    }
}

/// The first character of a pattern, row by row, other than a space, that
/// the key does not define.
pub open spec fn first_unknown(rows: Seq<Seq<char>>, keys: Seq<char>) -> Option<char>
    decreases rows.len(),
{
    if rows.len() == 0 {
        None
    } else {
        match first_unknown_in(rows[0], keys) {
            Some(c) => Some(c),
            None => first_unknown(rows.drop_first(), keys),
        }
    }
}

/// The view of a key.
pub open spec fn key_view(k: Seq<(char, RecipeIngredient)>) -> Seq<(char, IngredientView)> {
    Seq::new(k.len(), |i: int| (k[i].0, k[i].1@))
}

proof fn lemma_key_prefix_error(s: Seq<(String, Json)>, k: int, vanilla: VanillaElements)
    requires
        0 <= k <= s.len(),
        key_entries_of(s.take(k), vanilla) is Err,
    ensures
        key_entries_of(s, vanilla) == key_entries_of(s.take(k), vanilla),
    decreases s.len() - k,
{
    if k < s.len() {
        assert(s.take(k + 1).drop_last() =~= s.take(k));
        lemma_key_prefix_error(s, k + 1, vanilla);
    } else {
        assert(s.take(k) =~= s);
    }
}

/// The key of a shaped recipe; errors name the file as `path`.
pub fn parse_key(path: &str, value: Option<&Json>, vanilla: &VanillaElements) -> (r: Result<
    Vec<(char, RecipeIngredient)>,
    DataPackError,
>)
    ensures
        match key_of(opt(value), *vanilla) {
            Ok(k) => r matches Ok(x) && key_view(x@) == k,
            Err(m) => r matches Err(e) && recipe_error(e, path@, m),
        },
{
    let entries = match value {
        Some(Json::Object(entries)) => entries,
        _ => {
            return Err(refuse(path, "crafting_shaped.key must be an object"));
        },
    };
    let mut key: Vec<(char, RecipeIngredient)> = Vec::new();
    let mut i: usize = 0;
    assert(entries@.take(0) =~= Seq::<(String, Json)>::empty());
    assert(key_view(key@) =~= Seq::<(char, IngredientView)>::empty());
    while i < entries.len()
        invariant
            opt(value) == Some(Json::Object(*entries)),
            i <= entries.len(),
            key_entries_of(entries@.take(i as int), *vanilla) == Ok::<Seq<(char, IngredientView)>, Seq<char>>(
                key_view(key@),
            ),
        decreases entries.len() - i,
    {
        assert(entries@.take(i + 1).drop_last() =~= entries@.take(i as int));
        assert(entries@.take(i + 1).last() == entries@[i as int]);
        let chars = str_chars(entries[i].0.as_str());
        if chars.len() == 0 {
            proof {
                lemma_key_prefix_error(entries@, i + 1, *vanilla);
            }
            return Err(refuse(path, "crafting key cannot be empty"));
        }
        if chars.len() > 1 || chars[0] == ' ' {
            proof {
                lemma_key_prefix_error(entries@, i + 1, *vanilla);
            }
            return Err(refuse(path, "crafting key entries must be one non-space character"));
        }
        match parse_ingredient(path, &entries[i].1, vanilla) {
            Ok(x) => {
                let ghost before = key@;
                key.push((chars[0], x));
                assert(key@.drop_last() =~= before);
                assert(key_view(key@) =~= key_view(before).push((chars@[0], key@.last().1@)));
            },
            Err(e) => {
                proof {
                    lemma_key_prefix_error(entries@, i + 1, *vanilla);
                }
                return Err(e);
            },
        }
        i = i + 1;
    }
    assert(entries@.take(entries.len() as int) =~= entries@);
    Ok(key)
}

/// Whether the key defines the character `c`.
fn key_defines(key: &Vec<(char, RecipeIngredient)>, c: char) -> (r: bool)
    ensures
        r == key_chars(key_view(key@)).contains(c),
{
    let ghost ks = key_chars(key_view(key@));
    let mut i: usize = 0;
    while i < key.len()
        invariant
            ks == key_chars(key_view(key@)),
            i <= key.len(),
            forall|j: int| 0 <= j < i ==> ks[j] != c,
        decreases key.len() - i,
    {
        if key[i].0 == c {
            assert(ks[i as int] == c);
            return true;
        }
        i = i + 1;
    }
    false
}

/// The first character of the pattern that the key does not define.
fn find_unknown_key(pattern: &Vec<String>, key: &Vec<(char, RecipeIngredient)>) -> (r: Option<char>)
    ensures
        r == first_unknown(crate::sorted::sview(pattern@), key_chars(key_view(key@))),
{
    let ghost keys = key_chars(key_view(key@));
    let ghost rows = crate::sorted::sview(pattern@);
    let mut i: usize = 0;
    assert(rows.skip(0) =~= rows);
    while i < pattern.len()
        invariant
            keys == key_chars(key_view(key@)),
            rows == crate::sorted::sview(pattern@),
            i <= pattern.len(),
            first_unknown(rows, keys) == first_unknown(rows.skip(i as int), keys),
        decreases pattern.len() - i,
    {
        let row = str_chars(pattern[i].as_str());
        let mut j: usize = 0;
        assert(row@.skip(0) =~= row@);
        assert(rows.skip(i as int)[0] == row@);
        assert(rows.skip(i as int).drop_first() =~= rows.skip(i + 1));
        while j < row.len()
            invariant
                keys == key_chars(key_view(key@)),
                rows == crate::sorted::sview(pattern@),
                i < pattern.len(),
                first_unknown(rows, keys) == first_unknown(rows.skip(i as int), keys),
                rows.skip(i as int)[0] == row@,
                rows.skip(i as int).len() > 0,
                j <= row.len(),
                first_unknown_in(row@, keys) == first_unknown_in(row@.skip(j as int), keys),
            decreases row.len() - j,
        {
            let c = row[j];
            assert(row@.skip(j as int)[0] == c);
            if c != ' ' && !key_defines(key, c) {
                assert(first_unknown_in(row@.skip(j as int), keys) == Some(c));
                return Some(c);
            }
            assert(row@.skip(j as int).drop_first() =~= row@.skip(j + 1));
            j = j + 1;
        }
        assert(row@.skip(j as int).len() == 0);
        i = i + 1;
    }
    assert(rows.skip(i as int).len() == 0);
    None
}

/// A crafting-table recipe.
#[derive(Debug)]
pub enum CraftingRecipe {
    Shaped {
        recipe_id: String,
        category: RecipeCategory,
        group: Option<String>,
        show_notification: bool,
        key: Vec<(char, RecipeIngredient)>,
        pattern: Vec<String>,
        result: RecipeResult,
    },
    Shapeless {
        recipe_id: String,
        category: RecipeCategory,
        group: Option<String>,
        ingredients: Vec<RecipeIngredient>,
        result: RecipeResult,
    },
}

/// The four kinds of cooking recipe.
#[derive(Clone, Copy, Debug, PartialEq, Eq, Structural)]
pub enum CookingKind {
    Smelting,
    Blasting,
    Smoking,
    CampfireCooking,
}

/// A cooking recipe.  The experience is the decimal text of the file's
/// number (none means 0).
#[derive(Debug)]
pub struct CookingRecipe {
    pub recipe_id: String,
    pub category: RecipeCategory,
    pub group: Option<String>,
    pub ingredient: RecipeIngredient,
    pub cooking_time: i32,
    pub experience: Option<String>,
    pub result: RecipeResult,
}

/// A recipe a datapack adds.
#[derive(Debug)]
pub enum DynamicRecipe {
    Crafting(CraftingRecipe),
    Cooking(CookingKind, CookingRecipe),
}

/// A datapack recipe with its texts as character sequences.
pub enum RecipeView {
    Shaped {
        recipe_id: Seq<char>,
        category: RecipeCategory,
        group: Option<Seq<char>>,
        show_notification: bool,
        key: Seq<(char, IngredientView)>,
        pattern: Seq<Seq<char>>,
        result: ResultView,
    },
    Shapeless {
        recipe_id: Seq<char>,
        category: RecipeCategory,
        group: Option<Seq<char>>,
        ingredients: Seq<IngredientView>,
        result: ResultView,
    },
    Cooking {
        kind: CookingKind,
        recipe_id: Seq<char>,
        category: RecipeCategory,
        group: Option<Seq<char>>,
        ingredient: IngredientView,
        cooking_time: i32,
        experience: Option<Seq<char>>,
        result: ResultView,
    },
}

/// The view of an optional text.
pub open spec fn opt_text(o: Option<String>) -> Option<Seq<char>> {
    match o {
        Some(s) => Some(s@),
        None => None,
    }
}

/// The view of a datapack recipe.
pub open spec fn recipe_view(r: DynamicRecipe) -> RecipeView {
    match r {
        DynamicRecipe::Crafting(
            CraftingRecipe::Shaped { recipe_id, category, group, show_notification, key, pattern, result },
        ) => RecipeView::Shaped {
            recipe_id: recipe_id@,
            category,
            group: opt_text(group),
            show_notification,
            key: key_view(key@),
            pattern: crate::sorted::sview(pattern@),
            result: result_view(result),
        },
        DynamicRecipe::Crafting(CraftingRecipe::Shapeless { recipe_id, category, group, ingredients, result }) =>
            RecipeView::Shapeless {
            recipe_id: recipe_id@,
            category,
            group: opt_text(group),
            ingredients: ingredient_views(ingredients@),
            result: result_view(result),
        },
        DynamicRecipe::Cooking(kind, c) => RecipeView::Cooking {
            kind,
            recipe_id: c.recipe_id@,
            category: c.category,
            group: opt_text(c.group),
            ingredient: c.ingredient@,
            cooking_time: c.cooking_time,
            experience: opt_text(c.experience),
            result: result_view(c.result),
        },
    }
}

/// The `group` a recipe names.
pub open spec fn group_of(v: Json) -> Option<Seq<char>> {
    str_of(json_get(v, "group"@))
}

/// A shaped recipe, or why it is refused: its `pattern` is an array of one
/// to three strings of one to three bytes; its `key` maps single
/// non-space characters to ingredients, and must define every character
/// of the pattern other than a space; `show_notification` is true unless
/// set.
pub open spec fn shaped_of(v: Json, id: Seq<char>, vanilla: VanillaElements) -> Result<RecipeView, Seq<char>> {
    match json_get(v, "pattern"@) {
        Some(Json::Array(rows)) => match pattern_rows_of(rows@) {
            None => Err("crafting_shaped.pattern rows must be strings"@),
            Some(p) => if !pattern_fits(p) {
                Err("crafting_shaped pattern must be 1..=3 by 1..=3"@)
            } else {
                match key_of(json_get(v, "key"@), vanilla) {
                    Err(m) => Err(m),
                    Ok(key) => match first_unknown(p, key_chars(key)) {
                        Some(c) => Err("pattern references unknown key "@ + char_debug_text(c)),
                        None => match result_of(json_get(v, "result"@), vanilla) {
                            Err(m) => Err(m),
                            Ok(res) => Ok(
                                RecipeView::Shaped {
                                    recipe_id: id,
                                    category: category_of(v),
                                    group: group_of(v),
                                    show_notification: match bool_of(json_get(v, "show_notification"@)) {
                                        Some(b) => b,
                                        None => true,
                                    },
                                    key,
                                    pattern: p,
                                    result: res,
                                },
                            ),
                        },
                    },
                }
            },
        },
        _ => Err("crafting_shaped.pattern must be an array"@),
    }
}

/// A shapeless recipe, or why it is refused: one to nine ingredients.
pub open spec fn shapeless_of(v: Json, id: Seq<char>, vanilla: VanillaElements) -> Result<RecipeView, Seq<char>> {
    match json_get(v, "ingredients"@) {
        Some(Json::Array(a)) => match ingredients_of(a@, vanilla) {
            Err(m) => Err(m),
            Ok(ins) => if ins.len() == 0 || ins.len() > 9 {
                Err("crafting_shapeless must contain 1..=9 ingredients"@)
            } else {
                match result_of(json_get(v, "result"@), vanilla) {
                    Err(m) => Err(m),
                    Ok(res) => Ok(
                        RecipeView::Shapeless {
                            recipe_id: id,
                            category: category_of(v),
                            group: group_of(v),
                            ingredients: ins,
                            result: res,
                        },
                    ),
                }
            },
        },
        _ => Err("crafting_shapeless.ingredients must be an array"@),
    }
}

/// The `cookingtime` field of a recipe, or else its `cooking_time` (a
/// `cookingtime` of another type does not fall back).
pub open spec fn cooking_time_field(v: Json) -> Option<Json> {
    match json_get(v, "cookingtime"@) {
        Some(x) => Some(x),
        None => json_get(v, "cooking_time"@),
    }
}

/// The cooking time a recipe asks for: 200 ticks unless it gives an
/// integer.
pub open spec fn cooking_time_of(v: Json) -> int {
    match i64_of(cooking_time_field(v)) {
        Some(t) => t as int,
        None => 200,
    }
}

/// The experience a recipe gives, as the text of its number.
pub open spec fn experience_of(v: Json) -> Option<Seq<char>> {
    match json_get(v, "experience"@) {
        Some(Json::Number(n)) => Some(n.text@),
        _ => None,
    }
}

/// A cooking recipe, or why it is refused: the cooking time must be a
/// positive `i32` and an ingredient is required.
pub open spec fn cooking_of(v: Json, id: Seq<char>, kind: CookingKind, vanilla: VanillaElements) -> Result<
    RecipeView,
    Seq<char>,
> {
    let time = cooking_time_of(v);
    if time < 1 || time > i32::MAX {
        Err("invalid cooking time or experience"@)
    } else {
        match json_get(v, "ingredient"@) {
            None => Err("missing ingredient"@),
            Some(iv) => match ingredient_of(iv, vanilla) {
                Err(m) => Err(m),
                Ok(ingredient) => match result_of(json_get(v, "result"@), vanilla) {
                    Err(m) => Err(m),
                    Ok(res) => Ok(
                        RecipeView::Cooking {
                            kind,
                            recipe_id: id,
                            category: category_of(v),
                            group: group_of(v),
                            ingredient,
                            cooking_time: time as i32,
                            experience: experience_of(v),
                            result: res,
                        },
                    ),
                },
            },
        }
    }
}

/// What a recipe file's value reads as, by its `type`, or why it is
/// refused.
pub open spec fn recipe_of(v: Json, id: Seq<char>, vanilla: VanillaElements) -> Result<RecipeView, Seq<char>> {
    match str_of(json_get(v, "type"@)) {
        None => Err("missing string type"@),
        Some(t) => if t == "minecraft:crafting_shaped"@ {
            shaped_of(v, id, vanilla)
        } else if t == "minecraft:crafting_shapeless"@ {
            shapeless_of(v, id, vanilla)
        } else if t == "minecraft:smelting"@ {
            cooking_of(v, id, CookingKind::Smelting, vanilla)
        } else if t == "minecraft:blasting"@ {
            cooking_of(v, id, CookingKind::Blasting, vanilla)
        } else if t == "minecraft:smoking"@ {
            cooking_of(v, id, CookingKind::Smoking, vanilla)
        } else if t == "minecraft:campfire_cooking"@ {
            cooking_of(v, id, CookingKind::CampfireCooking, vanilla)
        } else {
            Err("unsupported recipe type "@ + t)
        },
    }
}

/// The cooking kind of a recipe view, if it is a cooking recipe.
pub open spec fn cooking_kind_of(v: RecipeView) -> Option<CookingKind> {
    match v {
        RecipeView::Cooking { kind, .. } => Some(kind),
        _ => None,
    }
}

/// A recipe file read successfully is a cooking recipe of the kind its
/// `type` names: `minecraft:smelting` a furnace recipe, `minecraft:blasting`
/// a blast furnace recipe, `minecraft:smoking` a smoker recipe and
/// `minecraft:campfire_cooking` a campfire recipe; a crafting type is read
/// as no cooking recipe.
pub proof fn lemma_cooking_type_sets_kind(v: Json, id: Seq<char>, vanilla: VanillaElements)
    ensures
        str_of(json_get(v, "type"@)) == Some("minecraft:smelting"@) && recipe_of(v, id, vanilla) is Ok
            ==> cooking_kind_of(recipe_of(v, id, vanilla)->Ok_0) == Some(CookingKind::Smelting),
        str_of(json_get(v, "type"@)) == Some("minecraft:blasting"@) && recipe_of(v, id, vanilla) is Ok
            ==> cooking_kind_of(recipe_of(v, id, vanilla)->Ok_0) == Some(CookingKind::Blasting),
        str_of(json_get(v, "type"@)) == Some("minecraft:smoking"@) && recipe_of(v, id, vanilla) is Ok
            ==> cooking_kind_of(recipe_of(v, id, vanilla)->Ok_0) == Some(CookingKind::Smoking),
        str_of(json_get(v, "type"@)) == Some("minecraft:campfire_cooking"@) && recipe_of(v, id, vanilla) is Ok
            ==> cooking_kind_of(recipe_of(v, id, vanilla)->Ok_0) == Some(CookingKind::CampfireCooking),
        str_of(json_get(v, "type"@)) == Some("minecraft:crafting_shaped"@) && recipe_of(v, id, vanilla) is Ok
            ==> cooking_kind_of(recipe_of(v, id, vanilla)->Ok_0) is None,
        str_of(json_get(v, "type"@)) == Some("minecraft:crafting_shapeless"@) && recipe_of(v, id, vanilla) is Ok
            ==> cooking_kind_of(recipe_of(v, id, vanilla)->Ok_0) is None,
{
    reveal_strlit("minecraft:crafting_shaped");
    reveal_strlit("minecraft:crafting_shapeless");
    reveal_strlit("minecraft:smelting");
    reveal_strlit("minecraft:blasting");
    reveal_strlit("minecraft:smoking");
    reveal_strlit("minecraft:campfire_cooking");
    let shaped = "minecraft:crafting_shaped"@;
    let shapeless = "minecraft:crafting_shapeless"@;
    let smelting = "minecraft:smelting"@;
    let blasting = "minecraft:blasting"@;
    let smoking = "minecraft:smoking"@;
    let campfire = "minecraft:campfire_cooking"@;
    assert(shaped != shapeless) by { assert(shaped.len() != shapeless.len()); }
    assert(smelting != shaped && smelting != shapeless) by { assert(smelting[10] != shaped[10] && smelting[10] != shapeless[10]); }
    assert(blasting != shaped && blasting != shapeless && blasting != smelting) by {
        assert(blasting[10] != shaped[10] && blasting[10] != shapeless[10] && blasting[10] != smelting[10]);
    }
    assert(smoking != shaped && smoking != shapeless && smoking != smelting && smoking != blasting) by {
        assert(smoking[10] != shaped[10] && smoking[10] != shapeless[10] && smoking.len() != smelting.len());
        assert(smoking[10] != blasting[10]);
    }
    assert(campfire != shaped && campfire != shapeless && campfire != smelting && campfire != blasting && campfire != smoking) by {
        assert(campfire[11] != shaped[11] && campfire[11] != shapeless[11]);
        assert(campfire[10] != smelting[10] && campfire[10] != blasting[10] && campfire[10] != smoking[10]);
    }
}

/// The cooking time of a recipe view, if it is a cooking recipe.
pub open spec fn cooking_time_in(v: RecipeView) -> Option<i32> {
    match v {
        RecipeView::Cooking { cooking_time, .. } => Some(cooking_time),
        _ => None,
    }
}

/// A recipe read successfully carries the id it was read under; a file
/// without a string `type`, or with a type the server does not know, is
/// refused; a cooking recipe cooks for the integer its `cookingtime` (or
/// `cooking_time`) gives, 200 ticks when it gives none, and is refused
/// when that is not between 1 and `i32::MAX`.
pub proof fn lemma_recipe_reading_rules(v: Json, id: Seq<char>, vanilla: VanillaElements)
    ensures
        recipe_of(v, id, vanilla) is Ok ==> crate::recipe::declared_id(recipe_of(v, id, vanilla)->Ok_0) == id,
        str_of(json_get(v, "type"@)) is None ==> recipe_of(v, id, vanilla) is Err,
        str_of(json_get(v, "type"@)) matches Some(t) ==> (t != "minecraft:crafting_shaped"@ && t
            != "minecraft:crafting_shapeless"@ && t != "minecraft:smelting"@ && t != "minecraft:blasting"@ && t
            != "minecraft:smoking"@ && t != "minecraft:campfire_cooking"@ ==> recipe_of(v, id, vanilla) is Err),
        recipe_of(v, id, vanilla) is Ok && cooking_time_in(recipe_of(v, id, vanilla)->Ok_0) is Some ==> ({
            let time = cooking_time_in(recipe_of(v, id, vanilla)->Ok_0)->0;
            &&& 1 <= time
            &&& (i64_of(json_get(v, "cookingtime"@)) matches Some(n) ==> time == n)
            &&& (json_get(v, "cookingtime"@) is None && json_get(v, "cooking_time"@) is None ==> time == 200)
        }),
{
}

proof fn lemma_rows_prefix_none(s: Seq<Json>, k: int)
    requires
        0 <= k <= s.len(),
        pattern_rows_of(s.take(k)) is None,
    ensures
        pattern_rows_of(s) is None,
    decreases s.len() - k,
{
    if k < s.len() {
        assert(s.take(k + 1).drop_last() =~= s.take(k));
        lemma_rows_prefix_none(s, k + 1);
    } else {
        assert(s.take(k) =~= s);
    }
}

/// The group a recipe names.
fn parse_group(value: &Json) -> (r: Option<String>)
    ensures
        opt_text(r) == group_of(*value),
{
    match as_str(get(value, "group")) {
        Some(g) => Some(crate::datapack::copy_string(g)),
        None => None,
    }
}

/// A shaped crafting recipe with id `id`; errors name the file as `path`.
pub fn parse_shaped(path: &str, value: &Json, id: &str, vanilla: &VanillaElements) -> (r: Result<
    CraftingRecipe,
    DataPackError,
>)
    ensures
        match shaped_of(*value, id@, *vanilla) {
            Ok(v) => r matches Ok(x) && recipe_view(DynamicRecipe::Crafting(x)) == v,
            Err(m) => r matches Err(e) && recipe_error(e, path@, m),
        },
{
    let rows = match get(value, "pattern") {
        Some(Json::Array(rows)) => rows,
        _ => {
            return Err(refuse(path, "crafting_shaped.pattern must be an array"));
        },
    };
    let mut pattern: Vec<String> = Vec::new();
    let mut i: usize = 0;
    assert(rows@.take(0) =~= Seq::<Json>::empty());
    assert(crate::sorted::sview(pattern@) =~= Seq::<Seq<char>>::empty());
    while i < rows.len()
        invariant
            json_get(*value, "pattern"@) == Some(Json::Array(*rows)),
            i <= rows.len(),
            pattern_rows_of(rows@.take(i as int)) == Some(crate::sorted::sview(pattern@)),
        decreases rows.len() - i,
    {
        assert(rows@.take(i + 1).drop_last() =~= rows@.take(i as int));
        assert(rows@.take(i + 1).last() == rows@[i as int]);
        match &rows[i] {
            Json::Text(t) => {
                let ghost before = pattern@;
                pattern.push(crate::datapack::copy_string(t));
                assert(pattern@.drop_last() =~= before);
                assert(crate::sorted::sview(pattern@) =~= crate::sorted::sview(before).push(t@));
            },
            _ => {
                proof {
                    lemma_rows_prefix_none(rows@, i + 1);
                }
                return Err(refuse(path, "crafting_shaped.pattern rows must be strings"));
            },
        }
        i = i + 1;
    }
    assert(rows@.take(rows.len() as int) =~= rows@);
    let ghost p = crate::sorted::sview(pattern@);
    assert(p.len() == pattern.len());
    assert(pattern_rows_of(rows@) == Some(p));
    if pattern.len() == 0 || pattern.len() > 3 {
        assert(!pattern_fits(p));
        return Err(refuse(path, "crafting_shaped pattern must be 1..=3 by 1..=3"));
    }
    let mut j: usize = 0;
    while j < pattern.len()
        invariant
            p == crate::sorted::sview(pattern@),
            json_get(*value, "pattern"@) == Some(Json::Array(*rows)),
            pattern_rows_of(rows@) == Some(p),
            1 <= pattern.len() <= 3,
            j <= pattern.len(),
            forall|k: int| 0 <= k < j ==> #[trigger] p[k].len() > 0 && utf8_len(p[k]) <= 3,
        decreases pattern.len() - j,
    {
        let row = str_chars(pattern[j].as_str());
        if row.len() == 0 || crate::text::utf8_len_exceeds(&row, 3) {
            assert(!pattern_fits(p)) by {
                assert(!(p[j as int].len() > 0 && utf8_len(p[j as int]) <= 3));
            }
            return Err(refuse(path, "crafting_shaped pattern must be 1..=3 by 1..=3"));
        }
        j = j + 1;
    }
    assert(pattern_fits(p));
    let key = match parse_key(path, get(value, "key"), vanilla) {
        Ok(k) => k,
        Err(e) => {
            return Err(e);
        },
    };
    match find_unknown_key(&pattern, &key) {
        Some(c) => {
            let text = char_debug(c);
            let tc = str_chars(text.as_str());
            let message = crate::datapack::text3("pattern references unknown key ", &tc, "");
            proof {
                reveal_strlit("");
                assert(message@ =~= "pattern references unknown key "@ + char_debug_text(c));
            }
            return Err(DataPackError::InvalidRecipe { path: string_from_str(path), message });
        },
        None => {},
    }
    let category = parse_category(value);
    let group = parse_group(value);
    let show_notification = match as_bool(get(value, "show_notification")) {
        Some(b) => b,
        None => true,
    };
    let result = match parse_result(path, get(value, "result"), vanilla) {
        Ok(res) => res,
        Err(e) => {
            return Err(e);
        },
    };
    Ok(
        CraftingRecipe::Shaped {
            recipe_id: string_from_str(id),
            category,
            group,
            show_notification,
            key,
            pattern,
            result,
        },
    )
}

/// The ingredients of a list of values, in order.
fn parse_ingredient_list(path: &str, items: &Vec<Json>, vanilla: &VanillaElements) -> (r: Result<
    Vec<RecipeIngredient>,
    DataPackError,
>)
    ensures
        match ingredients_of(items@, *vanilla) {
            Ok(ins) => r matches Ok(x) && ingredient_views(x@) == ins,
            Err(m) => r matches Err(e) && recipe_error(e, path@, m),
        },
{
    let mut parsed: Vec<RecipeIngredient> = Vec::new();
    let mut i: usize = 0;
    assert(items@.take(0) =~= Seq::<Json>::empty());
    assert(ingredient_views(parsed@) =~= Seq::<IngredientView>::empty());
    while i < items.len()
        invariant
            i <= items.len(),
            ingredients_of(items@.take(i as int), *vanilla) == Ok::<Seq<IngredientView>, Seq<char>>(
                ingredient_views(parsed@),
            ),
        decreases items.len() - i,
    {
        assert(items@.take(i + 1).drop_last() =~= items@.take(i as int));
        assert(items@.take(i + 1).last() == items@[i as int]);
        match parse_ingredient(path, &items[i], vanilla) {
            Ok(x) => {
                let ghost before = parsed@;
                parsed.push(x);
                assert(parsed@.drop_last() =~= before);
                assert(ingredient_views(parsed@) =~= ingredient_views(before).push(parsed@.last()@));
            },
            Err(e) => {
                proof {
                    lemma_ingredients_prefix_error(items@, i + 1, *vanilla);
                }
                return Err(e);
            },
        }
        i = i + 1;
    }
    assert(items@.take(items.len() as int) =~= items@);
    Ok(parsed)
}

/// A shapeless crafting recipe with id `id`; errors name the file as
/// `path`.
pub fn parse_shapeless(path: &str, value: &Json, id: &str, vanilla: &VanillaElements) -> (r: Result<
    CraftingRecipe,
    DataPackError,
>)
    ensures
        match shapeless_of(*value, id@, *vanilla) {
            Ok(v) => r matches Ok(x) && recipe_view(DynamicRecipe::Crafting(x)) == v,
            Err(m) => r matches Err(e) && recipe_error(e, path@, m),
        },
{
    let items = match get(value, "ingredients") {
        Some(Json::Array(items)) => items,
        _ => {
            return Err(refuse(path, "crafting_shapeless.ingredients must be an array"));
        },
    };
    let ingredients = match parse_ingredient_list(path, items, vanilla) {
        Ok(x) => x,
        Err(e) => {
            return Err(e);
        },
    };
    if ingredients.len() == 0 || ingredients.len() > 9 {
        return Err(refuse(path, "crafting_shapeless must contain 1..=9 ingredients"));
    }
    let category = parse_category(value);
    let group = parse_group(value);
    let result = match parse_result(path, get(value, "result"), vanilla) {
        Ok(res) => res,
        Err(e) => {
            return Err(e);
        },
    };
    Ok(CraftingRecipe::Shapeless { recipe_id: string_from_str(id), category, group, ingredients, result })
}

/// A cooking recipe of kind `kind` with id `id`; errors name the file as
/// `path`.
pub fn parse_cooking(path: &str, value: &Json, id: &str, kind: CookingKind, vanilla: &VanillaElements) -> (r:
    Result<CookingRecipe, DataPackError>)
    ensures
        match cooking_of(*value, id@, kind, *vanilla) {
            Ok(v) => r matches Ok(x) && recipe_view(DynamicRecipe::Cooking(kind, x)) == v,
            Err(m) => r matches Err(e) && recipe_error(e, path@, m),
        },
{
    let field = match get(value, "cookingtime") {
        Some(x) => Some(x),
        None => get(value, "cooking_time"),
    };
    let time: i64 = match as_i64(field) {
        Some(t) => t,
        None => 200,
    };
    if time < 1 || time > i32::MAX as i64 {
        return Err(refuse(path, "invalid cooking time or experience"));
    }
    let ingredient_value = match get(value, "ingredient") {
        Some(v) => v,
        None => {
            return Err(refuse(path, "missing ingredient"));
        },
    };
    let ingredient = match parse_ingredient(path, ingredient_value, vanilla) {
        Ok(x) => x,
        Err(e) => {
            return Err(e);
        },
    };
    let category = parse_category(value);
    let group = parse_group(value);
    let experience = match get(value, "experience") {
        Some(Json::Number(n)) => Some(crate::datapack::copy_string(&n.text)),
        _ => None,
    };
    let result = match parse_result(path, get(value, "result"), vanilla) {
        Ok(res) => res,
        Err(e) => {
            return Err(e);
        },
    };
    Ok(
        CookingRecipe {
            recipe_id: string_from_str(id),
            category,
            group,
            ingredient,
            cooking_time: time as i32,
            experience,
            result,
        },
    )
}

/// What reading a recipe file's value gives: the recipe that `recipe_of`
/// describes, or the refusal with its message.
pub open spec fn recipe_outcome(
    path: Seq<char>,
    value: Json,
    id: Seq<char>,
    vanilla: VanillaElements,
    r: Result<DynamicRecipe, DataPackError>,
) -> bool {
    match recipe_of(value, id, vanilla) {
        Ok(v) => r matches Ok(x) && recipe_view(x) == v,
        Err(m) => r matches Err(e) && recipe_error(e, path, m),
    }
}

/// The recipe a recipe file's value describes, with id `id`; errors name
/// the file as `path`.
pub fn parse_recipe_value(path: &str, value: &Json, id: &str, vanilla: &VanillaElements) -> (r: Result<
    DynamicRecipe,
    DataPackError,
>)
    ensures
        recipe_outcome(path@, *value, id@, *vanilla, r),
{
    let t = match as_str(get(value, "type")) {
        Some(t) => str_chars(t.as_str()),
        None => {
            return Err(refuse(path, "missing string type"));
        },
    };
    if crate::text::chars_eq_str(&t, "minecraft:crafting_shaped") {
        match parse_shaped(path, value, id, vanilla) {
            Ok(x) => Ok(DynamicRecipe::Crafting(x)),
            Err(e) => Err(e),
        }
    } else if crate::text::chars_eq_str(&t, "minecraft:crafting_shapeless") {
        match parse_shapeless(path, value, id, vanilla) {
            Ok(x) => Ok(DynamicRecipe::Crafting(x)),
            Err(e) => Err(e),
        }
    } else {
        let kind = if crate::text::chars_eq_str(&t, "minecraft:smelting") {
            CookingKind::Smelting
        } else if crate::text::chars_eq_str(&t, "minecraft:blasting") {
            CookingKind::Blasting
        } else if crate::text::chars_eq_str(&t, "minecraft:smoking") {
            CookingKind::Smoking
        } else if crate::text::chars_eq_str(&t, "minecraft:campfire_cooking") {
            CookingKind::CampfireCooking
        } else {
            let message = crate::datapack::text3("unsupported recipe type ", &t, "");
            proof {
                reveal_strlit("");
                assert(message@ =~= "unsupported recipe type "@ + t@);
            }
            return Err(DataPackError::InvalidRecipe { path: string_from_str(path), message });
        };
        match parse_cooking(path, value, id, kind, vanilla) {
            Ok(x) => Ok(DynamicRecipe::Cooking(kind, x)),
            Err(e) => Err(e),
        }
    }
}

/// What becomes of one recipe file during a reload.
#[derive(Debug)]
pub enum RecipeLoad {
    /// The recipe joins the candidate (replacing one of the same id).
    Loaded(DynamicRecipe),
    /// The file names a recipe type this server does not support: it is
    /// reported and skipped.
    Unsupported { path: String, message: String },
    /// The file is malformed: the reload is refused.
    Refused(DataPackError),
}

/// The message prefix of an unsupported recipe type.
pub open spec fn unsupported_prefix() -> Seq<char> {
    "unsupported recipe type "@
}

/// What a recipe file's outcome means for a reload: a recipe type the
/// server does not support is skipped with a report, every other refusal
/// refuses the reload.
pub fn classify_recipe_load(outcome: Result<DynamicRecipe, DataPackError>) -> (r: RecipeLoad)
    ensures
        match outcome {
            Ok(x) => r matches RecipeLoad::Loaded(y) && y == x,
            Err(e) => match e {
                DataPackError::InvalidRecipe { path, message } => if crate::text::starts_with(
                    message@,
                    unsupported_prefix(),
                ) {
                    r matches RecipeLoad::Unsupported { path: p, message: m } && p == path && m == message
                } else {
                    r matches RecipeLoad::Refused(f) && f == e
                },
                _ => r matches RecipeLoad::Refused(f) && f == e,
            },
        },
{
    match outcome {
        Ok(x) => RecipeLoad::Loaded(x),
        Err(DataPackError::InvalidRecipe { path, message }) => {
            let chars = str_chars(message.as_str());
            if crate::text::starts_with_str(&chars, "unsupported recipe type ") {
                RecipeLoad::Unsupported { path, message }
            } else {
                RecipeLoad::Refused(DataPackError::InvalidRecipe { path, message })
            }
        },
        Err(e) => RecipeLoad::Refused(e),
    }
}

} // verus!
