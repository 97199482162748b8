//! Datapack tags: parsed definitions, merging across packs, membership
//! resolution and validation.
//!
//! Tags are kept as references until a caller asks for membership, which
//! preserves vanilla tag composition and lets a reload validate references
//! before the snapshot is published.
use vstd::prelude::*;

use crate::datapack::{text3, DataPackError};
use crate::identifier::{
    Identifier, identifier_error_text, minecraft_prefix, parse_identifier, split_identifier,
};
use crate::sorted::{
    chars_of_strings, contains_chars, sorted_insert, strictly_sorted, strings_from_chars, sview,
};
use crate::text::{
    chars_eq, chars_eq_str, concat_chars, find_char_from, index_of_char, lemma_find_from,
    slice_chars, starts_with, str_chars, strip_prefix_or_keep, strip_prefix_or_keep_str, vview,
};

verus! {

broadcast use vstd::seq_lib::seq_to_set_is_finite;

/// A tag entry: an element id or a reference to another tag (`#id`), either
/// of which may be optional.
#[derive(Clone, Debug, PartialEq, Eq)]
pub enum TagValue {
    Element { id: String, required: bool },
    Tag { id: String, required: bool },
}

/// The entries of one tag file, and whether it replaces lower-priority packs.
#[derive(Clone, Debug, PartialEq, Eq, Default)]
pub struct TagDefinition {
    pub values: Vec<TagValue>,
    pub replace: bool,
}

/// The vanilla registry keys (without the `minecraft:` namespace) that a
/// `minecraft:` element of an item, block or fluid tag must name.
#[derive(Clone, Debug, PartialEq, Eq, Default)]
pub struct VanillaElements {
    pub items: Vec<String>,
    pub blocks: Vec<String>,
    pub fluids: Vec<String>,
}

/// Immutable, fully parsed datapack tag registry.  Keys are canonical tag
/// identifiers whose path is `<registry>/<tag path>`, for example
/// `minecraft:items/planks`, in `String` order.
#[derive(Clone, Debug, PartialEq, Eq, Default)]
pub struct TagSnapshot {
    pub tags: Vec<(String, TagDefinition)>,
    pub vanilla: VanillaElements,
}

pub open spec fn value_id(v: TagValue) -> Seq<char> {
    match v {
        TagValue::Element { id, .. } => id@,
        TagValue::Tag { id, .. } => id@,
    }
}

pub open spec fn value_required(v: TagValue) -> bool {
    match v {
        TagValue::Element { required, .. } => required,
        TagValue::Tag { required, .. } => required,
    }
}

/// The definition stored under `id`: the first entry with that key.
pub open spec fn lookup(tags: Seq<(String, TagDefinition)>, id: Seq<char>) -> Option<TagDefinition>
    decreases tags.len(),
{
    if tags.len() == 0 {
        None
    } else if tags[0].0@ == id {
        Some(tags[0].1)
    } else {
        lookup(tags.drop_first(), id)
    }
}

/// The keys of the registry, in order.
pub open spec fn key_seq(tags: Seq<(String, TagDefinition)>) -> Seq<Seq<char>> {
    tags.map_values(|p: (String, TagDefinition)| p.0@)
}

/// The keys of the registry.
pub open spec fn tag_keys(tags: Seq<(String, TagDefinition)>) -> Set<Seq<char>> {
    key_seq(tags).to_set()
}

/// The keys of a registry whose entries are in strictly increasing order.
pub open spec fn keys_sorted(tags: Seq<(String, TagDefinition)>) -> bool {
    strictly_sorted(key_seq(tags))
}

/// The defined tags not yet on the current resolution path: the measure
/// that bounds resolution depth.
pub open spec fn unvisited(tags: Seq<(String, TagDefinition)>, visiting: Set<Seq<char>>) -> nat {
    tag_keys(tags).difference(visiting).len()
}

pub proof fn lemma_lookup_key(tags: Seq<(String, TagDefinition)>, id: Seq<char>)
    ensures
        lookup(tags, id) is Some ==> tag_keys(tags).contains(id),
        !tag_keys(tags).contains(id) ==> lookup(tags, id) is None,
    decreases tags.len(),
{
    let keys = key_seq(tags);
    if tags.len() > 0 {
        if tags[0].0@ == id {
            assert(keys[0] == id);
        } else {
            lemma_lookup_key(tags.drop_first(), id);
            let rest = tags.drop_first().map_values(|p: (String, TagDefinition)| p.0@);
            if lookup(tags, id) is Some {
                assert(rest.contains(id));
                let k = choose|k: int| 0 <= k < rest.len() && rest[k] == id;
                assert(keys[k + 1] == id);
            }
            if !tag_keys(tags).contains(id) {
                assert forall|k: int| 0 <= k < rest.len() implies rest[k] != id by {
                    assert(keys[k + 1] == rest[k]);
                }
            }
        }
    }
}

pub proof fn lemma_unvisited_decreases(
    tags: Seq<(String, TagDefinition)>,
    visiting: Set<Seq<char>>,
    t: Seq<char>,
)
    requires
        lookup(tags, t) is Some,
        !visiting.contains(t),
    ensures
        unvisited(tags, visiting.insert(t)) < unvisited(tags, visiting),
{
    lemma_lookup_key(tags, t);
    let keys = tag_keys(tags);
    let d = keys.difference(visiting);
    assert(keys.difference(visiting.insert(t)) =~= d.remove(t));
    assert(d.contains(t));
    vstd::set::axiom_set_remove_len(d, t);
}

/// The `items`, `blocks` and `fluids` registries hold vanilla elements.
pub open spec fn items_registry() -> Seq<char> {
    seq!['i', 't', 'e', 'm', 's']
}

pub open spec fn blocks_registry() -> Seq<char> {
    seq!['b', 'l', 'o', 'c', 'k', 's']
}

pub open spec fn fluids_registry() -> Seq<char> {
    seq!['f', 'l', 'u', 'i', 'd', 's']
}

pub open spec fn function_registry() -> Seq<char> {
    seq!['f', 'u', 'n', 'c', 't', 'i', 'o', 'n']
}

/// The registry of a tag id: the first path segment of `namespace:path`,
/// or nothing when the id has no namespace or no `/`.
pub open spec fn tag_registry_of(tag_id: Seq<char>) -> Seq<char> {
    let k = index_of_char(tag_id, ':');
    if k < tag_id.len() {
        let path = tag_id.skip(k + 1);
        let j = index_of_char(path, '/');
        if j < path.len() {
            path.take(j)
        } else {
            Seq::empty()
        }
    } else {
        Seq::empty()
    }
}

/// A `minecraft:` element of an item, block or fluid tag, which vanilla
/// checks against its registry.
pub open spec fn known_vanilla_element(registry: Seq<char>, id: Seq<char>) -> bool {
    &&& starts_with(id, minecraft_prefix())
    &&& (registry == items_registry() || registry == blocks_registry() || registry
        == fluids_registry())
}

/// Whether the vanilla registry of `registry` holds the element `id`;
/// other registries hold every element.
pub open spec fn known_element_present(registry: Seq<char>, id: Seq<char>, vanilla: VanillaElements) -> bool {
    let key = strip_prefix_or_keep(id, minecraft_prefix());
    if registry == items_registry() {
        sview(vanilla.items@).contains(key)
    } else if registry == blocks_registry() {
        sview(vanilla.blocks@).contains(key)
    } else if registry == fluids_registry() {
        sview(vanilla.fluids@).contains(key)
    } else {
        true
    }
}

/// An element resolves when it is not a vanilla element or the vanilla
/// registry holds it; unresolved (optional) elements are left out.
pub open spec fn element_resolves(registry: Seq<char>, id: Seq<char>, vanilla: VanillaElements) -> bool {
    !known_vanilla_element(registry, id) || known_element_present(registry, id, vanilla)
}

/// The element ids reached from tag `t`, depth first in declaration order,
/// never entering a tag already on the current path (`visiting`).  With
/// `filtered`, elements that do not resolve are left out.
pub open spec fn emit_tag(
    tags: Seq<(String, TagDefinition)>,
    vanilla: VanillaElements,
    t: Seq<char>,
    visiting: Set<Seq<char>>,
    filtered: bool,
) -> Seq<Seq<char>>
    decreases unvisited(tags, visiting), 0nat,
{
    if visiting.contains(t) {
        Seq::empty()
    } else {
        match lookup(tags, t) {
            None => Seq::empty(),
            Some(def) => {
                proof {
                    lemma_unvisited_decreases(tags, visiting, t);
                }
                emit_values(
                    tags,
                    vanilla,
                    tag_registry_of(t),
                    def.values@,
                    visiting.insert(t),
                    filtered,
                )
            },
        }
    }
}

/// The element ids reached from the given entries, in order.
pub open spec fn emit_values(
    tags: Seq<(String, TagDefinition)>,
    vanilla: VanillaElements,
    registry: Seq<char>,
    values: Seq<TagValue>,
    visiting: Set<Seq<char>>,
    filtered: bool,
) -> Seq<Seq<char>>
    decreases unvisited(tags, visiting), values.len() + 1,
{
    if values.len() == 0 {
        Seq::empty()
    } else {
        emit_values(tags, vanilla, registry, values.drop_last(), visiting, filtered) + match values.last() {
            TagValue::Element { id, .. } => if !filtered || element_resolves(registry, id@, vanilla) {
                seq![id@]
            } else {
                Seq::empty()
            },
            TagValue::Tag { id, .. } => emit_tag(tags, vanilla, id@, visiting, filtered),
        }
    }
}

/// Appends each element of `s` to `acc` unless `acc` already holds it.
pub open spec fn dedup_append(acc: Seq<Seq<char>>, s: Seq<Seq<char>>) -> Seq<Seq<char>>
    decreases s.len(),
{
    if s.len() == 0 {
        acc
    } else {
        let a = dedup_append(acc, s.drop_last());
        if a.contains(s.last()) {
            a
        } else {
            a.push(s.last())
        }
    }
}

pub proof fn lemma_dedup_append_concat(acc: Seq<Seq<char>>, a: Seq<Seq<char>>, b: Seq<Seq<char>>)
    ensures
        dedup_append(acc, a + b) == dedup_append(dedup_append(acc, a), b),
    decreases b.len(),
{
    if b.len() == 0 {
        assert(a + b =~= a);
    } else {
        lemma_dedup_append_concat(acc, a, b.drop_last());
        assert((a + b).drop_last() =~= a + b.drop_last());
        assert((a + b).last() == b.last());
    }
}

/// The elements of `dedup_append(acc, s)` are those of `acc` and `s`.
pub proof fn lemma_dedup_append_set(acc: Seq<Seq<char>>, s: Seq<Seq<char>>)
    ensures
        dedup_append(acc, s).to_set() == acc.to_set().union(s.to_set()),
    decreases s.len(),
{
    if s.len() == 0 {
        assert(acc.to_set().union(s.to_set()) =~= acc.to_set());
    } else {
        let a = dedup_append(acc, s.drop_last());
        lemma_dedup_append_set(acc, s.drop_last());
        assert(s =~= s.drop_last() + seq![s.last()]);
        Seq::lemma_to_set_insert_commutes(s.drop_last(), s.last());
        if a.contains(s.last()) {
            assert(a.to_set().contains(s.last()));
            assert(a.to_set() =~= acc.to_set().union(s.to_set()));
        } else {
            assert(a.push(s.last()) =~= a + seq![s.last()]);
            Seq::lemma_to_set_insert_commutes(a, s.last());
            assert(a.push(s.last()).to_set() =~= acc.to_set().union(s.to_set()));
        }
    }
}

/// No duplicates are introduced.
pub proof fn lemma_dedup_append_no_duplicates(acc: Seq<Seq<char>>, s: Seq<Seq<char>>)
    requires
        acc.no_duplicates(),
    ensures
        dedup_append(acc, s).no_duplicates(),
    decreases s.len(),
{
    if s.len() > 0 {
        lemma_dedup_append_no_duplicates(acc, s.drop_last());
    }
}

/// Leaving unresolved elements out only drops elements: what a filtered
/// resolution of a tag reaches, the unfiltered one reaches too.
pub proof fn lemma_emit_tag_filtered_within(
    tags: Seq<(String, TagDefinition)>,
    vanilla: VanillaElements,
    t: Seq<char>,
    visiting: Set<Seq<char>>,
)
    ensures
        emit_tag(tags, vanilla, t, visiting, true).to_set().subset_of(
            emit_tag(tags, vanilla, t, visiting, false).to_set(),
        ),
    decreases unvisited(tags, visiting), 0nat,
{
    if !visiting.contains(t) {
        match lookup(tags, t) {
            None => {},
            Some(def) => {
                lemma_unvisited_decreases(tags, visiting, t);
                lemma_emit_values_filtered_within(
                    tags,
                    vanilla,
                    tag_registry_of(t),
                    def.values@,
                    visiting.insert(t),
                );
            },
        }
    }
}

/// The same for the entries of one tag.
pub proof fn lemma_emit_values_filtered_within(
    tags: Seq<(String, TagDefinition)>,
    vanilla: VanillaElements,
    registry: Seq<char>,
    values: Seq<TagValue>,
    visiting: Set<Seq<char>>,
)
    ensures
        emit_values(tags, vanilla, registry, values, visiting, true).to_set().subset_of(
            emit_values(tags, vanilla, registry, values, visiting, false).to_set(),
        ),
    decreases unvisited(tags, visiting), values.len() + 1,
{
    if values.len() > 0 {
        lemma_emit_values_filtered_within(tags, vanilla, registry, values.drop_last(), visiting);
        let a = emit_values(tags, vanilla, registry, values.drop_last(), visiting, true);
        let b = emit_values(tags, vanilla, registry, values.drop_last(), visiting, false);
        let (c, d) = match values.last() {
            TagValue::Element { id, .. } => (
                if element_resolves(registry, id@, vanilla) {
                    seq![id@]
                } else {
                    Seq::empty()
                },
                seq![id@],
            ),
            TagValue::Tag { id, .. } => {
                lemma_emit_tag_filtered_within(tags, vanilla, id@, visiting);
                (emit_tag(tags, vanilla, id@, visiting, true), emit_tag(tags, vanilla, id@, visiting, false))
            },
        };
        assert(c.to_set().subset_of(d.to_set())) by {
            if values.last() is Element {
                assert forall|y: Seq<char>| c.to_set().contains(y) implies d.to_set().contains(y) by {
                    assert(c.contains(y));
                    assert(d[0] == y);
                }
            }
        }
        assert forall|y: Seq<char>| (a + c).to_set().contains(y) implies (b + d).to_set().contains(y) by {
            assert((a + c).contains(y));
            let k = choose|k: int| 0 <= k < (a + c).len() && (a + c)[k] == y;
            if k < a.len() {
                assert(a.contains(y));
                assert(a.to_set().contains(y));
                assert(b.to_set().contains(y));
                let m = choose|m: int| 0 <= m < b.len() && b[m] == y;
                assert((b + d)[m] == y);
            } else {
                assert(c[k - a.len()] == y);
                assert(c.to_set().contains(y));
                assert(d.to_set().contains(y));
                let m = choose|m: int| 0 <= m < d.len() && d[m] == y;
                assert((b + d)[b.len() + m] == y);
            }
        }
    }
}

/// The ordered members of a tag name each member once, in the order in
/// which the unfiltered resolution first reaches them, and include every
/// element that `members` lists.
pub proof fn lemma_ordered_members_order(tags: Seq<(String, TagDefinition)>, vanilla: VanillaElements, t: Seq<char>)
    ensures
        ({
            let e = emit_tag(tags, vanilla, t, Set::empty(), false);
            let o = dedup_append(Seq::empty(), e);
            &&& o.no_duplicates()
            &&& forall|k1: int, k2: int, i1: int, i2: int|
                0 <= k1 < k2 < o.len() && #[trigger] first_at(e, o[k1], i1) && #[trigger] first_at(e, o[k2], i2)
                    ==> i1 < i2
            &&& emit_tag(tags, vanilla, t, Set::empty(), true).to_set().subset_of(o.to_set())
        }),
{
    let e = emit_tag(tags, vanilla, t, Set::empty(), false);
    lemma_ordered_members_distinct(tags, vanilla, t);
    lemma_dedup_first_occurrence_order(e);
    lemma_emit_tag_filtered_within(tags, vanilla, t, Set::empty());
}

/// The tag that an entry references, if it is a tag reference.
pub open spec fn ref_of(v: TagValue) -> Option<Seq<char>> {
    match v {
        TagValue::Tag { id, .. } => Some(id@),
        TagValue::Element { .. } => None,
    }
}

/// The element that an entry names, if it is an element.
pub open spec fn element_of(v: TagValue) -> Option<Seq<char>> {
    match v {
        TagValue::Element { id, .. } => Some(id@),
        TagValue::Tag { .. } => None,
    }
}

/// Whether an entry list names the tag `id` as a reference.
pub open spec fn lists_tag(values: Seq<TagValue>, id: Seq<char>) -> bool {
    exists|j: int| 0 <= j < values.len() && ref_of(#[trigger] values[j]) == Some(id)
}

/// Whether an entry list names the element `id`.
pub open spec fn lists_element(values: Seq<TagValue>, id: Seq<char>) -> bool {
    exists|j: int| 0 <= j < values.len() && element_of(#[trigger] values[j]) == Some(id)
}

/// A chain of defined tags, each naming the next as a reference.
pub open spec fn tag_chain(tags: Seq<(String, TagDefinition)>, path: Seq<Seq<char>>) -> bool {
    &&& path.len() >= 1
    &&& forall|k: int| 0 <= k < path.len() ==> #[trigger] lookup(tags, path[k]) is Some
    &&& forall|k: int|
        0 <= k < path.len() - 1 ==> lists_tag(#[trigger] lookup(tags, path[k])->0.values@, path[k + 1])
}

/// The element `e` is reached from tag `t`: a chain of tag references from
/// `t` leads to a defined tag that lists `e`; when `filtered`, the element
/// must also resolve in that tag's registry.
pub open spec fn reaches_element(
    tags: Seq<(String, TagDefinition)>,
    vanilla: VanillaElements,
    t: Seq<char>,
    e: Seq<char>,
    filtered: bool,
) -> bool {
    exists|path: Seq<Seq<char>>|
        #[trigger] tag_chain(tags, path) && path[0] == t && lists_element(lookup(tags, path.last())->0.values@, e)
            && (!filtered || element_resolves(tag_registry_of(path.last()), e, vanilla))
}

/// Where an element of an entry list's resolution comes from: an element
/// entry, kept by the filter, or a tag reference whose resolution holds it.
proof fn lemma_emit_values_source(
    tags: Seq<(String, TagDefinition)>,
    vanilla: VanillaElements,
    registry: Seq<char>,
    values: Seq<TagValue>,
    visiting: Set<Seq<char>>,
    filtered: bool,
    e: Seq<char>,
)
    requires
        emit_values(tags, vanilla, registry, values, visiting, filtered).contains(e),
    ensures
        (lists_element(values, e) && (!filtered || element_resolves(registry, e, vanilla))) || exists|j: int|
            0 <= j < values.len() && ref_of(#[trigger] values[j]) is Some && emit_tag(tags, vanilla, ref_of(values[j])->0,
                visiting,
                filtered,
            ).contains(e),
    decreases values.len(),
{
    let prefix = emit_values(tags, vanilla, registry, values.drop_last(), visiting, filtered);
    let last = values.last();
    let piece = match last {
        TagValue::Element { id, .. } => if !filtered || element_resolves(registry, id@, vanilla) {
            seq![id@]
        } else {
            Seq::empty()
        },
        TagValue::Tag { id, .. } => emit_tag(tags, vanilla, id@, visiting, filtered),
    };
    assert(emit_values(tags, vanilla, registry, values, visiting, filtered) == prefix + piece);
    let k = choose|k: int| 0 <= k < (prefix + piece).len() && (prefix + piece)[k] == e;
    if k < prefix.len() {
        assert(prefix[k] == e);
        lemma_emit_values_source(tags, vanilla, registry, values.drop_last(), visiting, filtered, e);
        let d = values.drop_last();
        if lists_element(d, e) {
            let j = choose|j: int| 0 <= j < d.len() && element_of(#[trigger] d[j]) == Some(e);
            assert(values[j] == d[j]);
        } else {
            let j = choose|j: int|
                0 <= j < d.len() && ref_of(#[trigger] d[j]) is Some && emit_tag(tags, vanilla, ref_of(d[j])->0,
                    visiting,
                    filtered,
                ).contains(e);
            assert(values[j] == d[j]);
        }
    } else {
        assert(piece[k - prefix.len()] == e);
        assert(values[values.len() - 1] == last);
    }
}

/// Every element in a tag's resolution is reached from the tag.
pub proof fn lemma_emitted_is_reached(
    tags: Seq<(String, TagDefinition)>,
    vanilla: VanillaElements,
    t: Seq<char>,
    visiting: Set<Seq<char>>,
    filtered: bool,
    e: Seq<char>,
)
    requires
        emit_tag(tags, vanilla, t, visiting, filtered).contains(e),
    ensures
        reaches_element(tags, vanilla, t, e, filtered),
    decreases unvisited(tags, visiting),
{
    let def = lookup(tags, t)->0;
    lemma_unvisited_decreases(tags, visiting, t);
    let inner = visiting.insert(t);
    lemma_emit_values_source(tags, vanilla, tag_registry_of(t), def.values@, inner, filtered, e);
    if lists_element(def.values@, e) && (!filtered || element_resolves(tag_registry_of(t), e, vanilla)) {
        let path = seq![t];
        assert(tag_chain(tags, path));
        assert(path.last() == t);
    } else {
        let j = choose|j: int|
            0 <= j < def.values@.len() && ref_of(#[trigger] def.values@[j]) is Some && emit_tag(tags, vanilla, ref_of(def.values@[j])->0,
                inner,
                filtered,
            ).contains(e);
        let id = match def.values@[j] {
            TagValue::Tag { id, .. } => id@,
            TagValue::Element { id, .. } => id@,
        };
        lemma_emitted_is_reached(tags, vanilla, id, inner, filtered, e);
        let p = choose|p: Seq<Seq<char>>|
            #[trigger] tag_chain(tags, p) && p[0] == id && lists_element(lookup(tags, p.last())->0.values@, e)
                && (!filtered || element_resolves(tag_registry_of(p.last()), e, vanilla));
        let path = seq![t] + p;
        assert(path.last() == p.last());
        assert(lists_tag(def.values@, id));
        assert forall|k: int| 0 <= k < path.len() implies #[trigger] lookup(tags, path[k]) is Some by {
            if k > 0 {
                assert(path[k] == p[k - 1]);
            }
        }
        assert forall|k: int| 0 <= k < path.len() - 1 implies lists_tag(
            #[trigger] lookup(tags, path[k])->0.values@,
            path[k + 1],
        ) by {
            if k > 0 {
                assert(path[k] == p[k - 1] && path[k + 1] == p[k]);
                assert(lists_tag(lookup(tags, p[k - 1])->0.values@, p[k]));
            }
        }
        assert(tag_chain(tags, path));
    }
}

/// An entry list's resolution holds each element entry kept by the filter
/// and everything its tag references' resolutions hold.
proof fn lemma_emit_values_includes(
    tags: Seq<(String, TagDefinition)>,
    vanilla: VanillaElements,
    registry: Seq<char>,
    values: Seq<TagValue>,
    visiting: Set<Seq<char>>,
    filtered: bool,
    j: int,
    e: Seq<char>,
)
    requires
        0 <= j < values.len(),
        match values[j] {
            TagValue::Element { id, .. } => id@ == e && (!filtered || element_resolves(registry, e, vanilla)),
            TagValue::Tag { id, .. } => emit_tag(tags, vanilla, id@, visiting, filtered).contains(e),
        },
    ensures
        emit_values(tags, vanilla, registry, values, visiting, filtered).contains(e),
    decreases values.len(),
{
    let prefix = emit_values(tags, vanilla, registry, values.drop_last(), visiting, filtered);
    let last = values.last();
    let piece = match last {
        TagValue::Element { id, .. } => if !filtered || element_resolves(registry, id@, vanilla) {
            seq![id@]
        } else {
            Seq::empty()
        },
        TagValue::Tag { id, .. } => emit_tag(tags, vanilla, id@, visiting, filtered),
    };
    assert(emit_values(tags, vanilla, registry, values, visiting, filtered) == prefix + piece);
    if j < values.len() - 1 {
        assert(values.drop_last()[j] == values[j]);
        lemma_emit_values_includes(tags, vanilla, registry, values.drop_last(), visiting, filtered, j, e);
        let k = choose|k: int| 0 <= k < prefix.len() && prefix[k] == e;
        assert((prefix + piece)[k] == e);
    } else {
        assert(last == values[j]);
        if last is Element {
            assert(piece[0] == e);
        }
        assert(piece.contains(e));
        let k = choose|k: int| 0 <= k < piece.len() && piece[k] == e;
        assert((prefix + piece)[prefix.len() + k] == e);
    }
}

/// A chain without repeats that avoids the tags being visited leads into
/// the resolution.
proof fn lemma_simple_chain_emitted(
    tags: Seq<(String, TagDefinition)>,
    vanilla: VanillaElements,
    path: Seq<Seq<char>>,
    visiting: Set<Seq<char>>,
    filtered: bool,
    e: Seq<char>,
)
    requires
        tag_chain(tags, path),
        path.no_duplicates(),
        forall|k: int| 0 <= k < path.len() ==> !visiting.contains(#[trigger] path[k]),
        lists_element(lookup(tags, path.last())->0.values@, e),
        !filtered || element_resolves(tag_registry_of(path.last()), e, vanilla),
    ensures
        emit_tag(tags, vanilla, path[0], visiting, filtered).contains(e),
    decreases path.len(),
{
    let t = path[0];
    assert(lookup(tags, path[0]) is Some);
    assert(!visiting.contains(path[0]));
    let def = lookup(tags, t)->0;
    let inner = visiting.insert(t);
    if path.len() == 1 {
        let j = choose|j: int|
            0 <= j < def.values@.len() && element_of(#[trigger] def.values@[j]) == Some(e);
        lemma_emit_values_includes(tags, vanilla, tag_registry_of(t), def.values@, inner, filtered, j, e);
    } else {
        let rest = path.drop_first();
        assert forall|k: int| 0 <= k < rest.len() implies #[trigger] lookup(tags, rest[k]) is Some by {
            assert(rest[k] == path[k + 1]);
        }
        assert forall|k: int| 0 <= k < rest.len() - 1 implies lists_tag(
            #[trigger] lookup(tags, rest[k])->0.values@,
            rest[k + 1],
        ) by {
            assert(rest[k] == path[k + 1] && rest[k + 1] == path[k + 2]);
            assert(lists_tag(lookup(tags, path[k + 1])->0.values@, path[k + 2]));
        }
        assert forall|k: int| 0 <= k < rest.len() implies !inner.contains(#[trigger] rest[k]) by {
            assert(rest[k] == path[k + 1]);
            assert(path[k + 1] != path[0]);
        }
        assert(rest.last() == path.last());
        lemma_simple_chain_emitted(tags, vanilla, rest, inner, filtered, e);
        assert(lists_tag(lookup(tags, path[0])->0.values@, path[1]));
        let j = choose|j: int|
            0 <= j < def.values@.len() && ref_of(#[trigger] def.values@[j]) == Some(path[1]);
        lemma_emit_values_includes(tags, vanilla, tag_registry_of(t), def.values@, inner, filtered, j, e);
    }
}

/// A chain that reaches an element can be cut to one without repeats.
proof fn lemma_shorten_chain(tags: Seq<(String, TagDefinition)>, path: Seq<Seq<char>>) -> (short: Seq<Seq<char>>)
    requires
        tag_chain(tags, path),
    ensures
        tag_chain(tags, short),
        short.no_duplicates(),
        short[0] == path[0],
        short.last() == path.last(),
    decreases path.len(),
{
    if path.no_duplicates() {
        path
    } else {
        let (i, j) = choose|i: int, j: int| 0 <= i < j < path.len() && path[i] == path[j];
        let cut = path.take(i) + path.skip(j);
        assert(cut.len() == path.len() - (j - i));
        assert forall|k: int| 0 <= k < cut.len() implies #[trigger] lookup(tags, cut[k]) is Some by {
            if k < i {
                assert(cut[k] == path[k]);
            } else {
                assert(cut[k] == path[k + j - i]);
            }
        }
        assert forall|k: int| 0 <= k < cut.len() - 1 implies lists_tag(
            #[trigger] lookup(tags, cut[k])->0.values@,
            cut[k + 1],
        ) by {
            if k < i - 1 {
                assert(cut[k] == path[k] && cut[k + 1] == path[k + 1]);
                assert(lists_tag(lookup(tags, path[k])->0.values@, path[k + 1]));
            } else if k == i - 1 {
                assert(cut[k] == path[k] && cut[k + 1] == path[j]);
                assert(lists_tag(lookup(tags, path[k])->0.values@, path[k + 1]));
            } else {
                assert(cut[k] == path[k + j - i] && cut[k + 1] == path[k + 1 + j - i]);
                assert(lists_tag(lookup(tags, path[k + j - i])->0.values@, path[k + j - i + 1]));
            }
        }
        assert(cut[0] == path[0]) by {
            if i == 0 {
                assert(cut[0] == path[j]);
            }
        }
        assert(cut.last() == path.last());
        lemma_shorten_chain(tags, cut)
    }
}

/// A tag's resolution holds exactly the elements reached from it: those a
/// chain of tag references from the tag leads to, through defined tags,
/// kept (when filtered) by the registry of the tag that lists them.  This
/// holds whatever cycles the references form.
pub proof fn lemma_resolution_is_reachability(
    tags: Seq<(String, TagDefinition)>,
    vanilla: VanillaElements,
    t: Seq<char>,
    filtered: bool,
    e: Seq<char>,
)
    ensures
        emit_tag(tags, vanilla, t, Set::empty(), filtered).contains(e) <==> reaches_element(
            tags,
            vanilla,
            t,
            e,
            filtered,
        ),
{
    if emit_tag(tags, vanilla, t, Set::empty(), filtered).contains(e) {
        lemma_emitted_is_reached(tags, vanilla, t, Set::empty(), filtered, e);
    }
    if reaches_element(tags, vanilla, t, e, filtered) {
        let path = choose|path: Seq<Seq<char>>|
            #[trigger] tag_chain(tags, path) && path[0] == t && lists_element(lookup(tags, path.last())->0.values@, e)
                && (!filtered || element_resolves(tag_registry_of(path.last()), e, vanilla));
        let short = lemma_shorten_chain(tags, path);
        lemma_simple_chain_emitted(tags, vanilla, short, Set::empty(), filtered, e);
    }
}

/// `i` is the first position of `x` in `s`.
pub open spec fn first_at(s: Seq<Seq<char>>, x: Seq<char>, i: int) -> bool {
    &&& 0 <= i < s.len()
    &&& s[i] == x
    &&& forall|j: int| 0 <= j < i ==> s[j] != x
}

/// Dropping duplicates keeps the elements in the order of their first
/// occurrence: of two kept elements, the earlier one first occurs earlier.
pub proof fn lemma_dedup_first_occurrence_order(s: Seq<Seq<char>>)
    ensures
        forall|k1: int, k2: int, i1: int, i2: int|
            0 <= k1 < k2 < dedup_append(Seq::empty(), s).len() && #[trigger] first_at(
                s,
                dedup_append(Seq::empty(), s)[k1],
                i1,
            ) && #[trigger] first_at(s, dedup_append(Seq::empty(), s)[k2], i2) ==> i1 < i2,
    decreases s.len(),
{
    if s.len() > 0 {
        let p = s.drop_last();
        let x = s.last();
        let a = dedup_append(Seq::empty(), p);
        lemma_dedup_first_occurrence_order(p);
        lemma_dedup_append_set(Seq::empty(), p);
        assert(Seq::<Seq<char>>::empty().to_set().union(p.to_set()) =~= p.to_set());
        assert forall|y: Seq<char>, i: int| p.contains(y) && first_at(s, y, i) implies first_at(p, y, i) by {
            let q = choose|q: int| 0 <= q < p.len() && p[q] == y;
            assert(s[q] == y);
            if i >= p.len() {
                assert(s[q] == y && q < i);
            }
            assert forall|j: int| 0 <= j < i implies p[j] != y by {
                assert(p[j] == s[j]);
            }
        }
        let r = dedup_append(Seq::empty(), s);
        if a.contains(x) {
            assert(r == a);
            assert forall|k1: int, k2: int, i1: int, i2: int|
                0 <= k1 < k2 < r.len() && #[trigger] first_at(s, r[k1], i1) && #[trigger] first_at(s, r[k2], i2)
                    implies i1 < i2 by {
                assert(a.to_set().contains(a[k1]));
                assert(a.to_set().contains(a[k2]));
                assert(first_at(p, a[k1], i1));
                assert(first_at(p, a[k2], i2));
            }
        } else {
            assert(r == a.push(x));
            assert(!a.to_set().contains(x));
            assert(!p.contains(x));
            assert forall|k1: int, k2: int, i1: int, i2: int|
                0 <= k1 < k2 < r.len() && #[trigger] first_at(s, r[k1], i1) && #[trigger] first_at(s, r[k2], i2)
                    implies i1 < i2 by {
                assert(r[k1] == a[k1]);
                assert(a.to_set().contains(a[k1]));
                assert(first_at(p, a[k1], i1));
                if k2 == a.len() {
                    assert(r[k2] == x);
                    if i2 < p.len() {
                        assert(p[i2] == x);
                    }
                } else {
                    assert(r[k2] == a[k2]);
                    assert(a.to_set().contains(a[k2]));
                    assert(first_at(p, a[k2], i2));
                }
            }
        }
    }
}

/// The tag id that `id` names: a `#` prefix is allowed, and the path must
/// be a non-empty registry, `/`, and a non-empty resource path.
pub open spec fn canonical_tag(id: Seq<char>) -> Option<Seq<char>> {
    let bare = strip_prefix_or_keep(id, seq!['#']);
    match parse_identifier(bare) {
        None => None,
        Some((ns, path)) => {
            let j = index_of_char(path, '/');
            if 0 < j && j + 1 < path.len() {
                Some(ns + seq![':'] + path)
            } else {
                None
            }
        },
    }
}

/// Why `id` names no tag, when `canonical_tag(id)` is `None`.
pub open spec fn canonical_tag_error(id: Seq<char>) -> Seq<char> {
    let bare = strip_prefix_or_keep(id, seq!['#']);
    match parse_identifier(bare) {
        None => identifier_error_text(split_identifier(bare).0, split_identifier(bare).1),
        Some((ns, path)) => {
            let j = index_of_char(path, '/');
            if j >= path.len() {
                "tag path must include a registry and resource path"@
            } else {
                "tag registry and resource path cannot be empty"@
            }
        },
    }
}

/// The element id that `id` names.
pub open spec fn canonical_element(id: Seq<char>) -> Option<Seq<char>> {
    match parse_identifier(id) {
        None => None,
        Some((ns, path)) => Some(ns + seq![':'] + path),
    }
}

/// The registry name of a tag id (the segment between `:` and the first
/// `/`).
pub fn tag_registry(tag_id: &Vec<char>) -> (r: Vec<char>)
    ensures
        r@ == tag_registry_of(tag_id@),
{
    let k = find_char_from(tag_id, ':', 0);
    proof {
        lemma_find_from(tag_id@, ':', 0);
    }
    if k < tag_id.len() {
        let path = slice_chars(tag_id, k + 1, tag_id.len());
        let j = find_char_from(&path, '/', 0);
        proof {
            lemma_find_from(path@, '/', 0);
            assert(path@ =~= tag_id@.skip(k + 1));
        }
        if j < path.len() {
            slice_chars(&path, 0, j)
        } else {
            Vec::new()
        }
    } else {
        Vec::new()
    }
}

/// Whether `id` is a `minecraft:` element of an item, block or fluid tag.
pub fn is_known_vanilla_element(registry: &Vec<char>, id: &Vec<char>) -> (r: bool)
    ensures
        r == known_vanilla_element(registry@, id@),
{
    proof {
        reveal_strlit("minecraft:");
        reveal_strlit("items");
        reveal_strlit("blocks");
        reveal_strlit("fluids");
    }
    let prefix_ok = crate::text::starts_with_str(id, "minecraft:");
    assert("minecraft:"@ =~= minecraft_prefix());
    assert("items"@ =~= items_registry());
    assert("blocks"@ =~= blocks_registry());
    assert("fluids"@ =~= fluids_registry());
    prefix_ok && (chars_eq_str(registry, "items") || chars_eq_str(registry, "blocks")
        || chars_eq_str(registry, "fluids"))
}

pub(crate) fn list_contains(list: &Vec<String>, key: &Vec<char>) -> (r: bool)
    ensures
        r == sview(list@).contains(key@),
{
    let mut i: usize = 0;
    while i < list.len()
        invariant
            i <= list.len(),
            forall|j: int| 0 <= j < i ==> sview(list@)[j] != key@,
        decreases list.len() - i,
    {
        let c = str_chars(list[i].as_str());
        if chars_eq(&c, key) {
            assert(sview(list@)[i as int] == key@);
            return true;
        }
        i = i + 1;
    }
    false
}

/// Whether the vanilla registry of `registry` holds the element `id`.
pub fn known_element_exists(vanilla: &VanillaElements, registry: &Vec<char>, id: &Vec<char>) -> (r:
    bool)
    ensures
        r == known_element_present(registry@, id@, *vanilla),
{
    proof {
        reveal_strlit("minecraft:");
        reveal_strlit("items");
        reveal_strlit("blocks");
        reveal_strlit("fluids");
    }
    let key = strip_prefix_or_keep_str(id, "minecraft:");
    assert("minecraft:"@ =~= minecraft_prefix());
    assert("items"@ =~= items_registry());
    assert("blocks"@ =~= blocks_registry());
    assert("fluids"@ =~= fluids_registry());
    if chars_eq_str(registry, "items") {
        list_contains(&vanilla.items, &key)
    } else if chars_eq_str(registry, "blocks") {
        list_contains(&vanilla.blocks, &key)
    } else if chars_eq_str(registry, "fluids") {
        list_contains(&vanilla.fluids, &key)
    } else {
        true
    }
}

/// The canonical form of a tag id (an optional `#`, then `namespace:path`
/// whose path is `registry/resource`).
pub fn canonical_tag_id(id: &str) -> (r: Result<String, String>)
    ensures
        r is Ok <==> canonical_tag(id@) is Some,
        r matches Ok(s) ==> canonical_tag(id@) == Some(s@),
        r matches Err(m) ==> m@ == canonical_tag_error(id@),
{
    let chars = str_chars(id);
    let bare = strip_prefix_or_keep_str(&chars, "#");
    proof {
        reveal_strlit("#");
        assert("#"@ =~= seq!['#']);
    }
    let bare_s = crate::text::string_from_chars(&bare);
    match Identifier::parse(bare_s.as_str()) {
        Err(e) => Err(e.message()),
        Ok(ident) => {
            let path = str_chars(ident.path.as_str());
            let j = find_char_from(&path, '/', 0);
            proof {
                lemma_find_from(path@, '/', 0);
            }
            if j >= path.len() {
                return Err(crate::text::string_from_str(
                    "tag path must include a registry and resource path",
                ));
            }
            if j == 0 {
                return Err(crate::text::string_from_str(
                    "tag registry and resource path cannot be empty",
                ));
            }
            if j + 1 == path.len() {
                return Err(crate::text::string_from_str(
                    "tag registry and resource path cannot be empty",
                ));
            }
            Ok(ident.as_string())
        },
    }
}

/// The canonical form of an element id.
pub fn canonical_element_id(id: &str) -> (r: Result<String, String>)
    ensures
        r is Ok <==> canonical_element(id@) is Some,
        r matches Ok(s) ==> canonical_element(id@) == Some(s@),
        r matches Err(m) ==> m@ == identifier_error_text(split_identifier(id@).0, split_identifier(id@).1),
{
    match Identifier::parse(id) {
        Err(e) => Err(e.message()),
        Ok(ident) => Ok(ident.as_string()),
    }
}

/// Index of the first entry with key `id`.
pub fn find_tag(tags: &Vec<(String, TagDefinition)>, id: &Vec<char>) -> (r: Option<usize>)
    ensures
        r is None ==> lookup(tags@, id@) is None,
        r matches Some(i) ==> i < tags.len() && lookup(tags@, id@) == Some(tags@[i as int].1)
            && tags@[i as int].0@ == id@,
{
    let mut i: usize = 0;
    assert(tags@.skip(0) =~= tags@);
    while i < tags.len()
        invariant
            i <= tags.len(),
            lookup(tags@, id@) == lookup(tags@.skip(i as int), id@),
        decreases tags.len() - i,
    {
        let key = str_chars(tags[i].0.as_str());
        assert(tags@.skip(i as int).drop_first() =~= tags@.skip(i + 1));
        if chars_eq(&key, id) {
            return Some(i);
        }
        i = i + 1;
    }
    None
}


/// The identity of an entry used to drop repeated entries when tags merge:
/// `element:<id>:<required>` or `tag:<id>:<required>`.
pub open spec fn value_key(v: TagValue) -> Seq<char> {
    let flag = if value_required(v) {
        seq!['t', 'r', 'u', 'e']
    } else {
        seq!['f', 'a', 'l', 's', 'e']
    };
    match v {
        TagValue::Element { id, .. } => seq!['e', 'l', 'e', 'm', 'e', 'n', 't', ':'] + id@ + seq![':'] + flag,
        TagValue::Tag { id, .. } => seq!['t', 'a', 'g', ':'] + id@ + seq![':'] + flag,
    }
}

/// The keys of a sequence of entries.
pub open spec fn value_keys(vals: Seq<TagValue>) -> Seq<Seq<char>> {
    vals.map_values(|v: TagValue| value_key(v))
}

/// The incoming entries that are appended to a tag whose entries have the
/// keys `seen`: each entry whose key is not yet present, in order.
pub open spec fn appended_values(seen: Seq<Seq<char>>, vals: Seq<TagValue>) -> Seq<TagValue>
    decreases vals.len(),
{
    if vals.len() == 0 {
        Seq::empty()
    } else {
        let a = appended_values(seen, vals.drop_last());
        if (seen + value_keys(a)).contains(value_key(vals.last())) {
            a
        } else {
            a.push(vals.last())
        }
    }
}

/// The entries a tag has after merging `incoming` into `existing`: a
/// replacing file discards lower-priority entries, any other file appends
/// its new entries.
pub open spec fn merged_values(existing: Option<TagDefinition>, incoming: TagDefinition) -> Seq<
    TagValue,
> {
    if incoming.replace {
        incoming.values@
    } else {
        let base = match existing {
            Some(d) => d.values@,
            None => Seq::empty(),
        };
        base + appended_values(value_keys(base), incoming.values@)
    }
}

/// The `replace` flag the merged entry keeps.
pub open spec fn merged_replace(existing: Option<TagDefinition>, incoming: TagDefinition) -> bool {
    if incoming.replace {
        false
    } else {
        match existing {
            Some(d) => d.replace,
            None => false,
        }
    }
}

/// The key text of an entry.
pub fn tag_value_key(value: &TagValue) -> (r: String)
    ensures
        r@ == value_key(*value),
{
    proof {
        reveal_strlit("element:");
        reveal_strlit("tag:");
        reveal_strlit(":true");
        reveal_strlit(":false");
    }
    let (head, id, required) = match value {
        TagValue::Element { id, required } => ("element:", id, *required),
        TagValue::Tag { id, required } => ("tag:", id, *required),
    };
    let tail = if required {
        ":true"
    } else {
        ":false"
    };
    let idc = str_chars(id.as_str());
    let r = text3(head, &idc, tail);
    proof {
        assert(":true"@ =~= seq![':'] + seq!['t', 'r', 'u', 'e']);
        assert(":false"@ =~= seq![':'] + seq!['f', 'a', 'l', 's', 'e']);
        assert("element:"@ =~= seq!['e', 'l', 'e', 'm', 'e', 'n', 't', ':']);
        assert("tag:"@ =~= seq!['t', 'a', 'g', ':']);
        assert(r@ =~= value_key(*value));
    }
    r
}

fn copy_value(v: &TagValue) -> (r: TagValue)
    ensures
        r == *v,
{
    match v {
        TagValue::Element { id, required } => TagValue::Element { id: id.clone(), required: *required },
        TagValue::Tag { id, required } => TagValue::Tag { id: id.clone(), required: *required },
    }
}

fn copy_values(v: &Vec<TagValue>) -> (r: Vec<TagValue>)
    ensures
        r@ == v@,
{
    let mut out: Vec<TagValue> = Vec::new();
    let mut i: usize = 0;
    while i < v.len()
        invariant
            i <= v.len(),
            out@ == v@.take(i as int),
        decreases v.len() - i,
    {
        out.push(copy_value(&v[i]));
        assert(v@.take(i + 1) =~= v@.take(i as int).push(v@[i as int]));
        i = i + 1;
    }
    assert(v@.take(v.len() as int) =~= v@);
    out
}

/// The definition that merging `incoming` over `existing` gives: a
/// replacing file keeps only its own entries, any other file appends its
/// entries whose key is new.
pub fn merge_definitions(existing: Option<&TagDefinition>, incoming: TagDefinition) -> (r: TagDefinition)
    ensures
        match existing {
            Some(d) => r.values@ == merged_values(Some(*d), incoming) && r.replace == merged_replace(
                Some(*d),
                incoming,
            ),
            None => r.values@ == merged_values(None, incoming) && r.replace == merged_replace(
                None,
                incoming,
            ),
        },
{
    if incoming.replace {
        return TagDefinition { values: incoming.values, replace: false };
    }
    match existing {
        Some(d) => {
            let base = copy_values(&d.values);
            let keep = d.replace;
            let mut seen: Vec<Vec<char>> = Vec::new();
            let mut j: usize = 0;
            while j < base.len()
                invariant
                    j <= base.len(),
                    vview(seen@) == value_keys(base@).take(j as int),
                decreases base.len() - j,
            {
                let k = tag_value_key(&base[j]);
                let kc = str_chars(k.as_str());
                seen.push(kc);
                assert(value_keys(base@).take(j + 1) =~= value_keys(base@).take(j as int).push(value_key(base@[j as int])));
                j = j + 1;
            }
            assert(value_keys(base@).take(base.len() as int) =~= value_keys(base@));
            let extra = append_new_values(&mut seen, incoming.values);
            let mut all = base;
            let mut extra = extra;
            all.append(&mut extra);
            TagDefinition { values: all, replace: keep }
        },
        None => {
            let mut seen: Vec<Vec<char>> = Vec::new();
            assert(vview(seen@) =~= value_keys(Seq::<TagValue>::empty()));
            let extra = append_new_values(&mut seen, incoming.values);
            proof {
                assert(Seq::<TagValue>::empty() + extra@ =~= extra@);
            }
            TagDefinition { values: extra, replace: false }
        },
    }
}

/// Merges one pack's tag file into the registry: a replacing file discards
/// what lower-priority packs declared, any other file appends the entries
/// that are not yet present.  Other tags are unchanged.
pub fn merge_tag(tags: &mut Vec<(String, TagDefinition)>, id: String, incoming: TagDefinition)
    requires
        keys_sorted(old(tags)@),
    ensures
        keys_sorted(final(tags)@),
        tag_keys(final(tags)@) == tag_keys(old(tags)@).insert(id@),
        forall|k: Seq<char>| k != id@ ==> lookup(final(tags)@, k) == lookup(old(tags)@, k),
        lookup(final(tags)@, id@) is Some,
        lookup(final(tags)@, id@).unwrap().values@ == merged_values(lookup(old(tags)@, id@), incoming),
        lookup(final(tags)@, id@).unwrap().replace == merged_replace(lookup(old(tags)@, id@), incoming),
{
    let key = str_chars(id.as_str());
    let ghost keys = key_seq(tags@);
    let ghost old_tags = tags@;
    let mut p: usize = 0;
    while p < tags.len() && lex_less_str(&tags[p].0, &key)
        invariant
            p <= tags.len(),
            tags@ == old_tags,
            keys == key_seq(old_tags),
            key@ == id@,
            forall|j: int| 0 <= j < p ==> crate::text::lex_lt(#[trigger] keys[j], key@),
        decreases tags.len() - p,
    {
        p = p + 1;
    }
    let exists = p < tags.len() && {
        let kp = str_chars(tags[p].0.as_str());
        chars_eq(&kp, &key)
    };
    proof {
        crate::sorted::lemma_sorted_transitive(keys);
        lemma_lookup_sorted(old_tags, key@, p as int, exists);
    }
    let ghost existing = lookup(old_tags, id@);
    let (merged, replace) = if incoming.replace {
        (incoming.values, false)
    } else if exists {
        let base = copy_values(&tags[p].1.values);
        let keep = tags[p].1.replace;
        let mut seen: Vec<Vec<char>> = Vec::new();
        let mut j: usize = 0;
        while j < base.len()
            invariant
                j <= base.len(),
                vview(seen@) == value_keys(base@).take(j as int),
            decreases base.len() - j,
        {
            let k = tag_value_key(&base[j]);
            let kc = str_chars(k.as_str());
            seen.push(kc);
            assert(value_keys(base@).take(j + 1) =~= value_keys(base@).take(j as int).push(value_key(base@[j as int])));
            j = j + 1;
        }
        assert(value_keys(base@).take(base.len() as int) =~= value_keys(base@));
        let extra = append_new_values(&mut seen, incoming.values);
        let mut all = base;
        let mut extra = extra;
        all.append(&mut extra);
        (all, keep)
    } else {
        let mut seen: Vec<Vec<char>> = Vec::new();
        assert(vview(seen@) =~= value_keys(Seq::<TagValue>::empty()));
        let extra = append_new_values(&mut seen, incoming.values);
        proof {
            assert(Seq::<TagValue>::empty() + extra@ =~= extra@);
        }
        (extra, false)
    };
    let definition = TagDefinition { values: merged, replace };
    if exists {
        tags.remove(p);
        tags.insert(p, (id, definition));
        proof {
            assert(tags@ =~= old_tags.update(p as int, (id, definition)));
            lemma_lookup_update(old_tags, p as int, (id, definition));
            assert(key_seq(tags@) =~= keys);
            assert(tag_keys(tags@) =~= tag_keys(old_tags).insert(id@)) by {
                assert(keys[p as int] == id@);
                assert(tag_keys(old_tags).contains(id@));
            }
        }
    } else {
        proof {
            if p < old_tags.len() {
                assert(old_tags[p as int].0@ != key@);
                crate::text::lemma_lex_total(old_tags[p as int].0@, key@);
            }
        }
        tags.insert(p, (id, definition));
        proof {
            assert(tags@ =~= old_tags.insert(p as int, (id, definition)));
            lemma_lookup_insert_sorted(old_tags, p as int, (id, definition));
        }
    }
}

/// Whether the registry's keys are in strictly increasing order, so that
/// each tag id occurs once.
pub fn tag_keys_sorted(tags: &Vec<(String, TagDefinition)>) -> (r: bool)
    ensures
        r == keys_sorted(tags@),
{
    let ghost keys = key_seq(tags@);
    if tags.len() == 0 {
        return true;
    }
    let mut i: usize = 1;
    while i < tags.len()
        invariant
            1 <= i <= tags.len(),
            keys == key_seq(tags@),
            forall|j: int| 0 <= j < i - 1 ==> crate::text::lex_lt(#[trigger] keys[j], keys[j + 1]),
        decreases tags.len() - i,
    {
        let next = str_chars(tags[i].0.as_str());
        if !lex_less_str(&tags[i - 1].0, &next) {
            assert(!crate::text::lex_lt(keys[i - 1], keys[i as int]));
            return false;
        }
        i = i + 1;
    }
    true
}

/// Compares a stored key with the characters of another key.
fn lex_less_str(a: &String, b: &Vec<char>) -> (r: bool)
    ensures
        r == crate::text::lex_lt(a@, b@),
{
    let av = str_chars(a.as_str());
    crate::text::lex_less(&av, b)
}

/// Appends, in order, each incoming entry whose key is not yet in `seen`.
fn append_new_values(seen: &mut Vec<Vec<char>>, incoming: Vec<TagValue>) -> (r: Vec<TagValue>)
    ensures
        r@ == appended_values(vview(old(seen)@), incoming@),
        vview(final(seen)@) == vview(old(seen)@) + value_keys(r@),
{
    let ghost s0 = vview(seen@);
    let mut out: Vec<TagValue> = Vec::new();
    let mut i: usize = 0;
    assert(vview(seen@) =~= s0 + value_keys(out@));
    while i < incoming.len()
        invariant
            i <= incoming.len(),
            out@ == appended_values(s0, incoming@.take(i as int)),
            vview(seen@) == s0 + value_keys(out@),
        decreases incoming.len() - i,
    {
        let k = tag_value_key(&incoming[i]);
        let kc = str_chars(k.as_str());
        proof {
            assert(incoming@.take(i + 1).drop_last() =~= incoming@.take(i as int));
            assert(incoming@.take(i + 1).last() == incoming@[i as int]);
        }
        if !contains_chars(seen, &kc) {
            let v = copy_value(&incoming[i]);
            let ghost before = out@;
            let ghost seen_before = seen@;
            out.push(v);
            seen.push(kc);
            proof {
                assert(value_keys(out@) =~= value_keys(before).push(kc@));
                assert(vview(seen@) =~= vview(seen_before).push(kc@));
                assert(s0 + value_keys(out@) =~= (s0 + value_keys(before)).push(kc@));
            }
        }
        i = i + 1;
    }
    assert(incoming@.take(incoming.len() as int) =~= incoming@);
    out
}

/// The lookup finds the first entry with the key, and nothing when no entry
/// has it.
pub proof fn lemma_lookup_first_entry(tags: Seq<(String, TagDefinition)>, id: Seq<char>)
    ensures
        lookup(tags, id) is None <==> forall|j: int| 0 <= j < tags.len() ==> tags[j].0@ != id,
        forall|p: int|
            0 <= p < tags.len() && tags[p].0@ == id && (forall|j: int| 0 <= j < p ==> tags[j].0@ != id)
                ==> lookup(tags, id) == Some(#[trigger] tags[p].1),
    decreases tags.len(),
{
    if tags.len() > 0 {
        let rest = tags.drop_first();
        lemma_lookup_first_entry(rest, id);
        assert forall|j: int| 0 <= j < rest.len() implies rest[j] == tags[j + 1] by {}
        if tags[0].0@ != id {
            assert((forall|j: int| 0 <= j < tags.len() ==> tags[j].0@ != id) <==> (forall|j: int|
                0 <= j < rest.len() ==> rest[j].0@ != id)) by {
                if forall|j: int| 0 <= j < rest.len() ==> rest[j].0@ != id {
                    assert forall|j: int| 0 <= j < tags.len() implies tags[j].0@ != id by {
                        if j > 0 {
                            assert(rest[j - 1] == tags[j]);
                        }
                    }
                }
            }
            assert forall|p: int|
                0 <= p < tags.len() && tags[p].0@ == id && (forall|j: int| 0 <= j < p ==> tags[j].0@ != id)
                    implies lookup(tags, id) == Some(#[trigger] tags[p].1) by {
                assert(p > 0);
                assert(rest[p - 1] == tags[p]);
                assert forall|j: int| 0 <= j < p - 1 implies rest[j].0@ != id by {
                    assert(rest[j] == tags[j + 1]);
                }
            }
        }
    }
}

/// In a registry sorted by key, the lookup of `id` is the entry at the first
/// position whose key is not below `id`, when that key is `id`.
proof fn lemma_lookup_sorted(tags: Seq<(String, TagDefinition)>, id: Seq<char>, p: int, exists: bool)
    requires
        keys_sorted(tags),
        0 <= p <= tags.len(),
        forall|j: int| 0 <= j < p ==> crate::text::lex_lt(#[trigger] key_seq(tags)[j], id),
        p < tags.len() ==> !crate::text::lex_lt(tags[p].0@, id),
        exists == (p < tags.len() && tags[p].0@ == id),
    ensures
        exists ==> lookup(tags, id) == Some(tags[p].1),
        !exists ==> lookup(tags, id) is None,
        forall|j: int| 0 <= j < tags.len() && j != p ==> tags[j].0@ != id,
{
    let keys = key_seq(tags);
    crate::sorted::lemma_sorted_transitive(keys);
    lemma_lookup_first_entry(tags, id);
    assert forall|j: int| 0 <= j < tags.len() && j != p implies tags[j].0@ != id by {
        assert(keys[j] == tags[j].0@);
        if j < p {
            crate::text::lemma_lex_asymmetric(keys[j], id);
        } else {
            assert(keys[p] == tags[p].0@);
            assert(crate::text::lex_lt(keys[p], keys[j]));
            if tags[j].0@ == id {
                crate::text::lemma_lex_asymmetric(keys[p], id);
            }
        }
    }
    if !exists && p < tags.len() {
        assert(tags[p].0@ != id);
    }
}

/// Replacing the entry at `p` by one with the same key changes only that
/// key's lookup.
proof fn lemma_lookup_update(tags: Seq<(String, TagDefinition)>, p: int, entry: (String, TagDefinition))
    requires
        0 <= p < tags.len(),
        tags[p].0@ == entry.0@,
        forall|j: int| 0 <= j < tags.len() && j != p ==> tags[j].0@ != entry.0@,
    ensures
        lookup(tags.update(p, entry), entry.0@) == Some(entry.1),
        forall|k: Seq<char>| k != entry.0@ ==> lookup(tags.update(p, entry), k) == lookup(tags, k),
{
    let u = tags.update(p, entry);
    lemma_lookup_first_entry(u, entry.0@);
    assert(u[p] == entry);
    assert forall|k: Seq<char>| k != entry.0@ implies lookup(u, k) == lookup(tags, k) by {
        lemma_lookup_first_entry(u, k);
        lemma_lookup_first_entry(tags, k);
        assert forall|j: int| 0 <= j < tags.len() implies (u[j].0@ == k) == (tags[j].0@ == k) by {
            if j == p {
                assert(u[j].0@ == entry.0@);
            } else {
                assert(u[j] == tags[j]);
            }
        }
        if lookup(tags, k) is Some {
            let q = choose|q: int| 0 <= q < tags.len() && tags[q].0@ == k;
            let f = first_index_with(tags, k, q);
            assert(f != p);
            assert(u[f] == tags[f]);
            assert(forall|j: int| 0 <= j < f ==> u[j].0@ != k);
            assert(lookup(u, k) == Some(u[f].1));
            assert(lookup(tags, k) == Some(tags[f].1));
        } else {
            assert(forall|j: int| 0 <= j < u.len() ==> u[j].0@ != k);
        }
    }
}

/// The first index at or below `q` whose key is `k`.
proof fn first_index_with(tags: Seq<(String, TagDefinition)>, k: Seq<char>, q: int) -> (f: int)
    requires
        0 <= q < tags.len(),
        tags[q].0@ == k,
    ensures
        0 <= f <= q,
        tags[f].0@ == k,
        forall|j: int| 0 <= j < f ==> tags[j].0@ != k,
    decreases q,
{
    if exists|j: int| 0 <= j < q && tags[j].0@ == k {
        let j = choose|j: int| 0 <= j < q && tags[j].0@ == k;
        first_index_with(tags, k, j)
    } else {
        q
    }
}

/// Inserting a new key at its sorted position keeps the registry sorted,
/// adds the key, and leaves the other lookups unchanged.
#[verifier::spinoff_prover]
#[verifier::rlimit(40)]
proof fn lemma_lookup_insert_sorted(tags: Seq<(String, TagDefinition)>, p: int, entry: (String, TagDefinition))
    requires
        keys_sorted(tags),
        0 <= p <= tags.len(),
        forall|j: int| 0 <= j < p ==> crate::text::lex_lt(#[trigger] key_seq(tags)[j], entry.0@),
        p < tags.len() ==> crate::text::lex_lt(entry.0@, tags[p].0@),
        forall|j: int| 0 <= j < tags.len() ==> tags[j].0@ != entry.0@,
    ensures
        keys_sorted(tags.insert(p, entry)),
        tag_keys(tags.insert(p, entry)) == tag_keys(tags).insert(entry.0@),
        lookup(tags.insert(p, entry), entry.0@) == Some(entry.1),
        forall|k: Seq<char>| k != entry.0@ ==> lookup(tags.insert(p, entry), k) == lookup(tags, k),
{
    let n = tags.insert(p, entry);
    let keys = key_seq(tags);
    let nkeys = key_seq(n);
    assert(nkeys =~= keys.insert(p, entry.0@));
    assert forall|i: int| 0 <= i < nkeys.len() - 1 implies crate::text::lex_lt(#[trigger] nkeys[i], nkeys[i + 1]) by {
        if i < p - 1 {
            assert(nkeys[i] == keys[i] && nkeys[i + 1] == keys[i + 1]);
        } else if i == p - 1 {
            assert(nkeys[i] == keys[i]);
        } else if i == p {
            assert(nkeys[i + 1] == keys[p]);
        } else {
            assert(nkeys[i] == keys[i - 1] && nkeys[i + 1] == keys[i]);
        }
    }
    assert forall|y: Seq<char>| nkeys.to_set().contains(y) == keys.to_set().insert(entry.0@).contains(y) by {
        if nkeys.contains(y) {
            let k = choose|k: int| 0 <= k < nkeys.len() && nkeys[k] == y;
            if k < p {
                assert(keys[k] == y);
            } else if k > p {
                assert(keys[k - 1] == y);
            }
        }
        if keys.contains(y) {
            let k = choose|k: int| 0 <= k < keys.len() && keys[k] == y;
            if k < p {
                assert(nkeys[k] == y);
            } else {
                assert(nkeys[k + 1] == y);
            }
        }
        if y == entry.0@ {
            assert(nkeys[p] == y);
        }
    }
    assert(tag_keys(n) =~= tag_keys(tags).insert(entry.0@));
    lemma_lookup_first_entry(n, entry.0@);
    assert(n[p] == entry);
    assert forall|j: int| 0 <= j < p implies n[j].0@ != entry.0@ by {
        assert(n[j] == tags[j]);
    }
    assert forall|k: Seq<char>| k != entry.0@ implies lookup(n, k) == lookup(tags, k) by {
        lemma_lookup_first_entry(n, k);
        lemma_lookup_first_entry(tags, k);
        if lookup(tags, k) is Some {
            let q = choose|q: int| 0 <= q < tags.len() && tags[q].0@ == k;
            let f = first_index_with(tags, k, q);
            let g = if f < p { f } else { f + 1 };
            assert(n[g] == tags[f]);
            assert forall|j: int| 0 <= j < g implies n[j].0@ != k by {
                if j < p {
                    assert(n[j] == tags[j]);
                } else if j > p {
                    assert(n[j] == tags[j - 1]);
                }
            }
            assert(lookup(n, k) == Some(n[g].1));
            assert(lookup(tags, k) == Some(tags[f].1));
        } else {
            assert forall|j: int| 0 <= j < n.len() implies n[j].0@ != k by {
                if j < p {
                    assert(n[j] == tags[j]);
                } else if j > p {
                    assert(n[j] == tags[j - 1]);
                }
            }
        }
    }
}


/// The problem found with a tag: the tag id and the message.
pub type TagProblem = (Seq<char>, Seq<char>);

/// What validating tag `id` finds, given the tags on the current path
/// (`visiting`) and the tags already validated: either the grown set of
/// validated tags or the first problem, in declaration order, depth first.
pub open spec fn check_tag(
    tags: Seq<(String, TagDefinition)>,
    vanilla: VanillaElements,
    id: Seq<char>,
    visiting: Set<Seq<char>>,
    validated: Set<Seq<char>>,
) -> Result<Set<Seq<char>>, TagProblem>
    decreases unvisited(tags, visiting), 0nat,
{
    if validated.contains(id) {
        Ok(validated)
    } else if visiting.contains(id) {
        Err((id, "cyclic tag reference"@))
    } else {
        match lookup(tags, id) {
            None => Ok(validated),
            Some(def) => {
                proof {
                    lemma_unvisited_decreases(tags, visiting, id);
                }
                match check_values(tags, vanilla, id, def.values@, visiting.insert(id), validated) {
                    Ok(done) => Ok(done.insert(id)),
                    Err(problem) => Err(problem),
                }
            },
        }
    }
}

/// What validating the entries of tag `id`, first to last, finds.
pub open spec fn check_values(
    tags: Seq<(String, TagDefinition)>,
    vanilla: VanillaElements,
    id: Seq<char>,
    values: Seq<TagValue>,
    visiting: Set<Seq<char>>,
    validated: Set<Seq<char>>,
) -> Result<Set<Seq<char>>, TagProblem>
    decreases unvisited(tags, visiting), values.len() + 1,
{
    if values.len() == 0 {
        Ok(validated)
    } else {
        let registry = tag_registry_of(id);
        let first = match values[0] {
            TagValue::Element { id: element, required } => {
                if required && known_vanilla_element(registry, element@) && !known_element_present(
                    registry,
                    element@,
                    vanilla,
                ) {
                    Err((id, "required element "@ + element@ + " does not exist"@))
                } else {
                    Ok(validated)
                }
            },
            TagValue::Tag { id: referenced, required } => {
                if tag_registry_of(referenced@) != registry {
                    Err((id, "tag reference "@ + referenced@ + " uses a different registry"@))
                } else if lookup(tags, referenced@) is None && required {
                    Err((id, "required tag "@ + referenced@ + " does not exist"@))
                } else if lookup(tags, referenced@) is Some {
                    check_tag(tags, vanilla, referenced@, visiting, validated)
                } else {
                    Ok(validated)
                }
            },
        };
        match first {
            Ok(done) => check_values(tags, vanilla, id, values.drop_first(), visiting, done),
            Err(problem) => Err(problem),
        }
    }
}

/// What validating every tag, in key order, finds.
pub open spec fn check_all(
    tags: Seq<(String, TagDefinition)>,
    vanilla: VanillaElements,
    keys: Seq<Seq<char>>,
    validated: Set<Seq<char>>,
) -> Result<(), TagProblem>
    decreases keys.len(),
{
    if keys.len() == 0 {
        Ok(())
    } else {
        match check_tag(tags, vanilla, keys[0], Set::empty(), validated) {
            Ok(done) => check_all(tags, vanilla, keys.drop_first(), done),
            Err(problem) => Err(problem),
        }
    }
}

/// Whether entry `v` of tag `id` is refused on its own: a required vanilla
/// element that its registry lacks, a reference into another registry, or
/// a required reference to an undefined tag.
pub open spec fn local_problem(
    tags: Seq<(String, TagDefinition)>,
    vanilla: VanillaElements,
    id: Seq<char>,
    v: TagValue,
) -> bool {
    let registry = tag_registry_of(id);
    match v {
        TagValue::Element { id: e, required } => required && known_vanilla_element(registry, e@)
            && !known_element_present(registry, e@, vanilla),
        TagValue::Tag { id: r, required } => tag_registry_of(r@) != registry || (lookup(tags, r@) is None
            && required),
    }
}

/// Whether the defined tag `id` has an entry refused on its own.
pub open spec fn has_local_problem(tags: Seq<(String, TagDefinition)>, vanilla: VanillaElements, id: Seq<char>) -> bool {
    lookup(tags, id) is Some && exists|j: int|
        0 <= j < lookup(tags, id)->0.values@.len() && local_problem(
            tags,
            vanilla,
            id,
            #[trigger] lookup(tags, id)->0.values@[j],
        )
}

/// Every chain of references from `t` repeats no tag and ends at a tag
/// without a local problem.
pub open spec fn tag_sound(tags: Seq<(String, TagDefinition)>, vanilla: VanillaElements, t: Seq<char>) -> bool {
    forall|path: Seq<Seq<char>>|
        #[trigger] tag_chain(tags, path) && path[0] == t ==> path.no_duplicates() && !has_local_problem(
            tags,
            vanilla,
            path.last(),
        )
}

/// Some tag has a local problem, or some chain of references repeats a tag.
pub open spec fn tags_broken(tags: Seq<(String, TagDefinition)>, vanilla: VanillaElements) -> bool {
    ||| exists|x: Seq<char>| #[trigger] has_local_problem(tags, vanilla, x)
    ||| exists|path: Seq<Seq<char>>| #[trigger] tag_chain(tags, path) && !path.no_duplicates()
}

/// A refusal of tag `id`, reached from the chain `stack` of tags being
/// validated, comes from a local problem or a repeating chain.
proof fn lemma_check_tag_refusal(
    tags: Seq<(String, TagDefinition)>,
    vanilla: VanillaElements,
    id: Seq<char>,
    visiting: Set<Seq<char>>,
    validated: Set<Seq<char>>,
    stack: Seq<Seq<char>>,
)
    requires
        check_tag(tags, vanilla, id, visiting, validated) is Err,
        visiting == stack.to_set(),
        stack.len() > 0 ==> tag_chain(tags, stack) && lists_tag(lookup(tags, stack.last())->0.values@, id),
    ensures
        tags_broken(tags, vanilla),
    decreases unvisited(tags, visiting), 0nat,
{
    if visiting.contains(id) {
        assert(stack.contains(id));
        let i = choose|i: int| 0 <= i < stack.len() && stack[i] == id;
        assert(lookup(tags, stack[i]) is Some);
        let p = stack.push(id);
        assert forall|k: int| 0 <= k < p.len() implies #[trigger] lookup(tags, p[k]) is Some by {
            if k < stack.len() {
                assert(p[k] == stack[k]);
            }
        }
        assert forall|k: int| 0 <= k < p.len() - 1 implies lists_tag(#[trigger] lookup(tags, p[k])->0.values@, p[k + 1]) by {
            assert(p[k] == stack[k]);
            if k < stack.len() - 1 {
                assert(p[k + 1] == stack[k + 1]);
            }
        }
        assert(tag_chain(tags, p));
        assert(p[i] == p[p.len() - 1]);
        assert(!p.no_duplicates());
    } else {
        let def = lookup(tags, id)->0;
        lemma_unvisited_decreases(tags, visiting, id);
        let next = stack.push(id);
        assert(next.to_set() =~= visiting.insert(id)) by {
            stack.lemma_push_to_set_commute(id);
        }
        assert forall|k: int| 0 <= k < next.len() implies #[trigger] lookup(tags, next[k]) is Some by {
            if k < stack.len() {
                assert(next[k] == stack[k]);
            }
        }
        assert forall|k: int| 0 <= k < next.len() - 1 implies lists_tag(#[trigger] lookup(tags, next[k])->0.values@, next[k + 1]) by {
            assert(next[k] == stack[k]);
            if k < stack.len() - 1 {
                assert(next[k + 1] == stack[k + 1]);
            }
        }
        assert(def.values@.skip(0) =~= def.values@);
        lemma_check_values_refusal(tags, vanilla, id, def.values@.skip(0), 0, visiting.insert(id), validated, next);
    }
}

/// A refusal among the entries of tag `id` from position `k` on comes
/// from a local problem or a repeating chain.
proof fn lemma_check_values_refusal(
    tags: Seq<(String, TagDefinition)>,
    vanilla: VanillaElements,
    id: Seq<char>,
    values: Seq<TagValue>,
    k: int,
    visiting: Set<Seq<char>>,
    validated: Set<Seq<char>>,
    stack: Seq<Seq<char>>,
)
    requires
        lookup(tags, id) is Some,
        0 <= k <= lookup(tags, id)->0.values@.len(),
        values == lookup(tags, id)->0.values@.skip(k),
        check_values(tags, vanilla, id, values, visiting, validated) is Err,
        visiting == stack.to_set(),
        tag_chain(tags, stack),
        stack.last() == id,
    ensures
        tags_broken(tags, vanilla),
    decreases unvisited(tags, visiting), values.len() + 1,
{
    let all = lookup(tags, id)->0.values@;
    let v = values[0];
    assert(v == all[k]);
    if local_problem(tags, vanilla, id, v) {
        assert(has_local_problem(tags, vanilla, id));
    } else {
        match v {
            TagValue::Element { .. } => {
                assert(values.drop_first() =~= all.skip(k + 1));
                lemma_check_values_refusal(tags, vanilla, id, values.drop_first(), k + 1, visiting, validated, stack);
            },
            TagValue::Tag { id: r, required } => {
                if lookup(tags, r@) is Some {
                    assert(ref_of(all[k]) == Some(r@));
                    assert(lists_tag(lookup(tags, stack.last())->0.values@, r@));
                    match check_tag(tags, vanilla, r@, visiting, validated) {
                        Err(_) => {
                            lemma_check_tag_refusal(tags, vanilla, r@, visiting, validated, stack);
                        },
                        Ok(done) => {
                            assert(values.drop_first() =~= all.skip(k + 1));
                            lemma_check_values_refusal(tags, vanilla, id, values.drop_first(), k + 1, visiting, done, stack);
                        },
                    }
                } else {
                    assert(values.drop_first() =~= all.skip(k + 1));
                    lemma_check_values_refusal(tags, vanilla, id, values.drop_first(), k + 1, visiting, validated, stack);
                }
            },
        }
    }
}

/// Every tag in the set is sound.
pub open spec fn all_sound(tags: Seq<(String, TagDefinition)>, vanilla: VanillaElements, w: Set<Seq<char>>) -> bool {
    forall|x: Seq<char>| #[trigger] w.contains(x) ==> tag_sound(tags, vanilla, x)
}

/// A tag that names a sound tag `c` is not reached back from `c`.
proof fn lemma_sound_child_no_return(
    tags: Seq<(String, TagDefinition)>,
    vanilla: VanillaElements,
    id: Seq<char>,
    c: Seq<char>,
    q: Seq<Seq<char>>,
)
    requires
        tag_sound(tags, vanilla, c),
        lookup(tags, id) is Some,
        lists_tag(lookup(tags, id)->0.values@, c),
        tag_chain(tags, q),
        q[0] == c,
    ensures
        !q.contains(id),
{
    if q.contains(id) {
        let k = choose|k: int| 0 <= k < q.len() && q[k] == id;
        let r = q.take(k + 1).push(c);
        assert(lookup(tags, c) is Some) by {
            assert(lookup(tags, q[0]) is Some);
        }
        assert forall|i: int| 0 <= i < r.len() implies #[trigger] lookup(tags, r[i]) is Some by {
            if i <= k {
                assert(r[i] == q[i]);
            }
        }
        assert forall|i: int| 0 <= i < r.len() - 1 implies lists_tag(#[trigger] lookup(tags, r[i])->0.values@, r[i + 1]) by {
            assert(r[i] == q[i]);
            if i < k {
                assert(r[i + 1] == q[i + 1]);
            } else {
                assert(r[i + 1] == c);
            }
        }
        assert(tag_chain(tags, r));
        assert(r[0] == c);
        assert(r[0] == r[r.len() - 1]);
    }
}

/// A tag whose validation succeeds is sound, as is every tag it marks
/// validated, given that those already validated are.
proof fn lemma_check_tag_success(
    tags: Seq<(String, TagDefinition)>,
    vanilla: VanillaElements,
    id: Seq<char>,
    visiting: Set<Seq<char>>,
    validated: Set<Seq<char>>,
)
    requires
        check_tag(tags, vanilla, id, visiting, validated) is Ok,
        all_sound(tags, vanilla, validated),
    ensures
        ({
            let done = check_tag(tags, vanilla, id, visiting, validated)->Ok_0;
            &&& validated.subset_of(done)
            &&& all_sound(tags, vanilla, done)
            &&& lookup(tags, id) is Some ==> done.contains(id)
        }),
    decreases unvisited(tags, visiting), 0nat,
{
    if !validated.contains(id) && !visiting.contains(id) && lookup(tags, id) is Some {
        let def = lookup(tags, id)->0;
        lemma_unvisited_decreases(tags, visiting, id);
        let inner = visiting.insert(id);
        lemma_check_values_success(tags, vanilla, id, def.values@, inner, validated);
        let done = check_values(tags, vanilla, id, def.values@, inner, validated)->Ok_0;
        assert(tag_sound(tags, vanilla, id)) by {
            assert forall|path: Seq<Seq<char>>| #[trigger] tag_chain(tags, path) && path[0] == id implies path.no_duplicates()
                && !has_local_problem(tags, vanilla, path.last()) by {
                if path.len() == 1 {
                    if has_local_problem(tags, vanilla, id) {
                        let j = choose|j: int| 0 <= j < def.values@.len() && local_problem(tags, vanilla, id, #[trigger] def.values@[j]);
                        assert(!local_problem(tags, vanilla, id, def.values@[j]));
                    }
                } else {
                    let q = path.drop_first();
                    let c = path[1];
                    assert(lists_tag(lookup(tags, path[0])->0.values@, path[1]));
                    let j = choose|j: int| 0 <= j < def.values@.len() && ref_of(#[trigger] def.values@[j]) == Some(c);
                    assert(lookup(tags, path[1]) is Some);
                    assert(done.contains(c));
                    assert forall|i: int| 0 <= i < q.len() implies #[trigger] lookup(tags, q[i]) is Some by {
                        assert(q[i] == path[i + 1]);
                    }
                    assert forall|i: int| 0 <= i < q.len() - 1 implies lists_tag(#[trigger] lookup(tags, q[i])->0.values@, q[i + 1]) by {
                        assert(q[i] == path[i + 1] && q[i + 1] == path[i + 2]);
                        assert(lists_tag(lookup(tags, path[i + 1])->0.values@, path[i + 2]));
                    }
                    assert(tag_chain(tags, q));
                    assert(tag_sound(tags, vanilla, c));
                    assert(q.no_duplicates());
                    assert(q.last() == path.last());
                    lemma_sound_child_no_return(tags, vanilla, id, c, q);
                    assert forall|a: int, b: int| 0 <= a < path.len() && 0 <= b < path.len() && a != b implies path[a] != path[b] by {
                        if a == 0 {
                            assert(path[b] == q[b - 1]);
                        } else if b == 0 {
                            assert(path[a] == q[a - 1]);
                        } else {
                            assert(path[a] == q[a - 1] && path[b] == q[b - 1]);
                        }
                    }
                }
            }
        }
        let fin = done.insert(id);
        assert forall|x: Seq<char>| #[trigger] fin.contains(x) implies tag_sound(tags, vanilla, x) by {
            if x != id {
                assert(done.contains(x));
            }
        }
    }
}

/// Entries whose validation succeeds have no local problem, and their
/// defined references end up validated and sound.
proof fn lemma_check_values_success(
    tags: Seq<(String, TagDefinition)>,
    vanilla: VanillaElements,
    id: Seq<char>,
    values: Seq<TagValue>,
    visiting: Set<Seq<char>>,
    validated: Set<Seq<char>>,
)
    requires
        check_values(tags, vanilla, id, values, visiting, validated) is Ok,
        all_sound(tags, vanilla, validated),
    ensures
        ({
            let done = check_values(tags, vanilla, id, values, visiting, validated)->Ok_0;
            &&& validated.subset_of(done)
            &&& all_sound(tags, vanilla, done)
            &&& forall|j: int| 0 <= j < values.len() ==> !local_problem(tags, vanilla, id, #[trigger] values[j])
            &&& forall|j: int|
                0 <= j < values.len() && ref_of(#[trigger] values[j]) is Some && lookup(tags, ref_of(values[j])->0)
                    is Some ==> done.contains(ref_of(values[j])->0)
        }),
    decreases unvisited(tags, visiting), values.len() + 1,
{
    if values.len() > 0 {
        let v = values[0];
        let rest = values.drop_first();
        let mid = match v {
            TagValue::Element { .. } => validated,
            TagValue::Tag { id: r, .. } => if lookup(tags, r@) is Some {
                check_tag(tags, vanilla, r@, visiting, validated)->Ok_0
            } else {
                validated
            },
        };
        match v {
            TagValue::Element { .. } => {},
            TagValue::Tag { id: r, .. } => {
                if lookup(tags, r@) is Some {
                    lemma_check_tag_success(tags, vanilla, r@, visiting, validated);
                }
            },
        }
        lemma_check_values_success(tags, vanilla, id, rest, visiting, mid);
        let done = check_values(tags, vanilla, id, rest, visiting, mid)->Ok_0;
        assert forall|j: int| 0 <= j < values.len() implies !local_problem(tags, vanilla, id, #[trigger] values[j]) by {
            if j > 0 {
                assert(values[j] == rest[j - 1]);
            }
        }
        assert forall|j: int|
            0 <= j < values.len() && ref_of(#[trigger] values[j]) is Some && lookup(tags, ref_of(values[j])->0)
                is Some implies done.contains(ref_of(values[j])->0) by {
            if j > 0 {
                assert(values[j] == rest[j - 1]);
            }
        }
    }
}

/// Tag validation succeeds exactly when no tag has an entry refused on its
/// own (a missing required vanilla element, a reference into another
/// registry, a missing required tag) and no chain of references between
/// defined tags comes back to a tag it passed, a tag naming itself
/// included.
pub proof fn lemma_tag_validation_exactly(tags: Seq<(String, TagDefinition)>, vanilla: VanillaElements)
    ensures
        check_all(tags, vanilla, key_seq(tags), Set::empty()) is Ok <==> !tags_broken(tags, vanilla),
{
    lemma_check_all_exactly(tags, vanilla, key_seq(tags), Set::empty());
    if check_all(tags, vanilla, key_seq(tags), Set::empty()) is Ok {
        assert forall|x: Seq<char>| !#[trigger] has_local_problem(tags, vanilla, x) by {
            if has_local_problem(tags, vanilla, x) {
                lemma_lookup_key(tags, x);
                let i = choose|i: int| 0 <= i < key_seq(tags).len() && key_seq(tags)[i] == x;
                assert(tag_sound(tags, vanilla, x));
                let p = seq![x];
                assert(tag_chain(tags, p));
            }
        }
        assert forall|path: Seq<Seq<char>>| #[trigger] tag_chain(tags, path) implies path.no_duplicates() by {
            let x = path[0];
            assert(lookup(tags, path[0]) is Some);
            lemma_lookup_key(tags, x);
            let i = choose|i: int| 0 <= i < key_seq(tags).len() && key_seq(tags)[i] == x;
            assert(tag_sound(tags, vanilla, x));
        }
    }
}

/// Validating the tags of `keys` in order succeeds exactly when each
/// defined one is sound, and is refused only where the tags are broken.
proof fn lemma_check_all_exactly(
    tags: Seq<(String, TagDefinition)>,
    vanilla: VanillaElements,
    keys: Seq<Seq<char>>,
    validated: Set<Seq<char>>,
)
    requires
        all_sound(tags, vanilla, validated),
    ensures
        check_all(tags, vanilla, keys, validated) is Err ==> tags_broken(tags, vanilla),
        check_all(tags, vanilla, keys, validated) is Ok ==> forall|i: int|
            0 <= i < keys.len() && lookup(tags, #[trigger] keys[i]) is Some ==> tag_sound(tags, vanilla, keys[i]),
    decreases keys.len(),
{
    if keys.len() > 0 {
        match check_tag(tags, vanilla, keys[0], Set::empty(), validated) {
            Err(_) => {
                assert(Seq::<Seq<char>>::empty().to_set() =~= Set::<Seq<char>>::empty());
                lemma_check_tag_refusal(tags, vanilla, keys[0], Set::empty(), validated, Seq::empty());
            },
            Ok(done) => {
                lemma_check_tag_success(tags, vanilla, keys[0], Set::empty(), validated);
                lemma_check_all_exactly(tags, vanilla, keys.drop_first(), done);
                if check_all(tags, vanilla, keys, validated) is Ok {
                    assert forall|i: int|
                        0 <= i < keys.len() && lookup(tags, #[trigger] keys[i]) is Some implies tag_sound(tags, vanilla, keys[i]) by {
                        if i == 0 {
                            assert(done.contains(keys[0]));
                        } else {
                            assert(keys[i] == keys.drop_first()[i - 1]);
                        }
                    }
                }
            },
        }
    }
}

/// The error that reports a tag problem.
pub open spec fn tag_problem_error(problem: TagProblem, e: DataPackError) -> bool {
    e matches DataPackError::InvalidTag { path, message } && path@ == problem.0 && message@ == problem.1
}

/// Validates every tag: references must stay in their registry, required
/// tags and vanilla elements must exist, and no tag may reference itself
/// through any chain of references.
pub fn validate_tag_snapshot(snapshot: &TagSnapshot) -> (r: Result<(), DataPackError>)
    ensures
        match check_all(snapshot.tags@, snapshot.vanilla, key_seq(snapshot.tags@), Set::empty()) {
            Ok(()) => r is Ok,
            Err(problem) => r matches Err(e) && tag_problem_error(problem, e),
        },
{
    let mut validated: Vec<Vec<char>> = Vec::new();
    let ghost keys = key_seq(snapshot.tags@);
    let mut i: usize = 0;
    assert(keys.skip(0) =~= keys);
    assert(vview(validated@).to_set() =~= Set::<Seq<char>>::empty());
    while i < snapshot.tags.len()
        invariant
            i <= snapshot.tags.len(),
            keys == key_seq(snapshot.tags@),
            check_all(snapshot.tags@, snapshot.vanilla, keys, Set::empty())
                == check_all(snapshot.tags@, snapshot.vanilla, keys.skip(i as int), vview(validated@).to_set()),
        decreases snapshot.tags.len() - i,
    {
        let id = str_chars(snapshot.tags[i].0.as_str());
        let visiting: Vec<Vec<char>> = Vec::new();
        assert(vview(visiting@).to_set() =~= Set::<Seq<char>>::empty());
        proof {
            assert(keys.skip(i as int)[0] == keys[i as int]);
            assert(keys.skip(i as int).drop_first() =~= keys.skip(i + 1));
        }
        match validate_tag(snapshot, &id, visiting, &mut validated) {
            Ok(_) => {},
            Err(e) => {
                return Err(e);
            },
        }
        i = i + 1;
    }
    Ok(())
}

/// Validates tag `id` and, depth first, the tags it references.  On
/// success the tags on the path are handed back unchanged and `validated`
/// has grown as `check_tag` says.
pub fn validate_tag(
    snapshot: &TagSnapshot,
    id: &Vec<char>,
    visiting: Vec<Vec<char>>,
    validated: &mut Vec<Vec<char>>,
) -> (r: Result<Vec<Vec<char>>, DataPackError>)
    ensures
        match check_tag(
            snapshot.tags@,
            snapshot.vanilla,
            id@,
            vview(visiting@).to_set(),
            vview(old(validated)@).to_set(),
        ) {
            Ok(done) => r matches Ok(back) && vview(back@) == vview(visiting@) && vview(
                final(validated)@,
            ).to_set() == done,
            Err(problem) => r matches Err(e) && tag_problem_error(problem, e),
        },
    decreases unvisited(snapshot.tags@, vview(visiting@).to_set()),
{
    let ghost vset = vview(visiting@).to_set();
    let ghost wset = vview(validated@).to_set();
    if contains_chars(validated, id) {
        return Ok(visiting);
    }
    if contains_chars(&visiting, id) {
        let path = crate::text::string_from_chars(id);
        let message = crate::text::string_from_str("cyclic tag reference");
        return Err(DataPackError::InvalidTag { path, message });
    }
    let idx = match find_tag(&snapshot.tags, id) {
        None => {
            return Ok(visiting);
        },
        Some(i) => i,
    };
    proof {
        lemma_unvisited_decreases(snapshot.tags@, vset, id@);
    }
    let registry = tag_registry(id);
    let ghost start_visiting = visiting@;
    let mut path = visiting;
    let own = slice_chars(id, 0, id.len());
    path.push(own);
    proof {
        assert(own@ =~= id@);
        assert(vview(path@) =~= vview(start_visiting).push(id@));
        assert(vview(start_visiting).push(id@) =~= vview(start_visiting) + seq![id@]);
        Seq::lemma_to_set_insert_commutes(vview(start_visiting), id@);
    }
    let ghost inner = vview(path@).to_set();
    let values = &snapshot.tags[idx].1.values;
    let ghost vals = values@;
    let mut i: usize = 0;
    assert(vals.skip(0) =~= vals);
    assert(!vset.contains(id@));
    assert(!wset.contains(id@));
    assert(check_tag(snapshot.tags@, snapshot.vanilla, id@, vset, wset) == match check_values(
        snapshot.tags@,
        snapshot.vanilla,
        id@,
        vals,
        inner,
        wset,
    ) {
        Ok(done) => Ok(done.insert(id@)),
        Err(problem) => Err(problem),
    });
    while i < values.len()
        invariant
            i <= values.len(),
            vals == values@,
            check_tag(snapshot.tags@, snapshot.vanilla, id@, vset, wset) == match check_values(
                snapshot.tags@,
                snapshot.vanilla,
                id@,
                vals,
                inner,
                wset,
            ) {
                Ok(done) => Ok(done.insert(id@)),
                Err(problem) => Err(problem),
            },
            vview(path@).to_set() == inner,
            vview(path@) == vview(start_visiting).push(id@),
            inner == vset.insert(id@),
            vset == vview(visiting@).to_set(),
            wset == vview(old(validated)@).to_set(),
            unvisited(snapshot.tags@, inner) < unvisited(snapshot.tags@, vset),
            registry@ == tag_registry_of(id@),
            check_values(snapshot.tags@, snapshot.vanilla, id@, vals, inner, wset) == check_values(
                snapshot.tags@,
                snapshot.vanilla,
                id@,
                vals.skip(i as int),
                inner,
                vview(validated@).to_set(),
            ),
        decreases values.len() - i,
    {
        proof {
            assert(vals.skip(i as int)[0] == vals[i as int]);
            assert(vals.skip(i as int).drop_first() =~= vals.skip(i + 1));
        }
        match &values[i] {
            TagValue::Element { id: element, required } => {
                let ec = str_chars(element.as_str());
                if *required && is_known_vanilla_element(&registry, &ec) && !known_element_exists(
                    &snapshot.vanilla,
                    &registry,
                    &ec,
                ) {
                    let path_text = crate::text::string_from_chars(id);
                    let message = text3("required element ", &ec, " does not exist");
                    return Err(DataPackError::InvalidTag { path: path_text, message });
                }
            },
            TagValue::Tag { id: referenced, required } => {
                let rc = str_chars(referenced.as_str());
                let rreg = tag_registry(&rc);
                if !chars_eq(&rreg, &registry) {
                    let path_text = crate::text::string_from_chars(id);
                    let message = text3("tag reference ", &rc, " uses a different registry");
                    return Err(DataPackError::InvalidTag { path: path_text, message });
                }
                let target = find_tag(&snapshot.tags, &rc);
                if target.is_none() && *required {
                    let path_text = crate::text::string_from_chars(id);
                    let message = text3("required tag ", &rc, " does not exist");
                    return Err(DataPackError::InvalidTag { path: path_text, message });
                }
                if target.is_some() {
                    assert(unvisited(snapshot.tags@, vview(path@).to_set()) < unvisited(snapshot.tags@, vset));
                    match validate_tag(snapshot, &rc, path, validated) {
                        Ok(back) => {
                            path = back;
                        },
                        Err(e) => {
                            return Err(e);
                        },
                    }
                }
            },
        }
        i = i + 1;
    }
    let ghost full = path@;
    path.pop();
    proof {
        assert(vview(full) == vview(start_visiting).push(id@));
        assert(vview(path@) =~= vview(full).drop_last());
        assert(vview(path@) =~= vview(start_visiting));
    }
    let ghost before = vview(validated@);
    validated.push(slice_chars(id, 0, id.len()));
    proof {
        assert(vview(validated@) =~= before + seq![id@]);
        Seq::lemma_to_set_insert_commutes(before, id@);
    }
    Ok(path)
}

/// The first required function missing from `functions` among the entries
/// of the function tags, in key then declaration order.
pub open spec fn function_reference_problem(
    tags: Seq<(String, TagDefinition)>,
    functions: Seq<Seq<char>>,
) -> Option<TagProblem>
    decreases tags.len(),
{
    if tags.len() == 0 {
        None
    } else {
        let first = if tag_registry_of(tags[0].0@) == function_registry() {
            missing_function(tags[0].0@, tags[0].1.values@, functions)
        } else {
            None
        };
        match first {
            Some(problem) => Some(problem),
            None => function_reference_problem(tags.drop_first(), functions),
        }
    }
}

/// The first required function element of one tag that `functions` lacks.
pub open spec fn missing_function(tag_id: Seq<char>, values: Seq<TagValue>, functions: Seq<Seq<char>>) -> Option<
    TagProblem,
>
    decreases values.len(),
{
    if values.len() == 0 {
        None
    } else {
        match values[0] {
            TagValue::Element { id, required } => if required && !functions.contains(id@) {
                Some((tag_id, "required function "@ + id@ + " does not exist"@))
            } else {
                missing_function(tag_id, values.drop_first(), functions)
            },
            TagValue::Tag { .. } => missing_function(tag_id, values.drop_first(), functions),
        }
    }
}

/// A tag entry names a loaded function or need not: it is a tag
/// reference, an optional element, or an element among `functions`.
pub open spec fn function_entry_present(v: TagValue, functions: Seq<Seq<char>>) -> bool {
    match v {
        TagValue::Element { id, required } => required ==> functions.contains(id@),
        TagValue::Tag { .. } => true,
    }
}

/// One tag's entries lack a function exactly when one of its required
/// elements is not among `functions`.
pub proof fn lemma_missing_function_exactly(tag_id: Seq<char>, values: Seq<TagValue>, functions: Seq<Seq<char>>)
    ensures
        missing_function(tag_id, values, functions) is None <==> forall|j: int|
            0 <= j < values.len() ==> function_entry_present(#[trigger] values[j], functions),
    decreases values.len(),
{
    if values.len() > 0 {
        let rest = values.drop_first();
        lemma_missing_function_exactly(tag_id, rest, functions);
        assert forall|j: int| 0 <= j < rest.len() implies rest[j] == values[j + 1] by {}
        if (forall|j: int| 0 <= j < rest.len() ==> function_entry_present(#[trigger] rest[j], functions))
            && function_entry_present(values[0], functions) {
            assert forall|j: int| 0 <= j < values.len() implies function_entry_present(#[trigger] values[j], functions) by {
                if j > 0 {
                    assert(values[j] == rest[j - 1]);
                }
            }
        }
    }
}

/// Function-tag validation fails exactly when some function tag has a
/// required element that names no loaded function.
pub proof fn lemma_function_references_exactly(tags: Seq<(String, TagDefinition)>, functions: Seq<Seq<char>>)
    ensures
        function_reference_problem(tags, functions) is None <==> forall|i: int, j: int|
            0 <= i < tags.len() && tag_registry_of(tags[i].0@) == function_registry() && 0 <= j
                < tags[i].1.values@.len() ==> function_entry_present(
                #[trigger] tags[i].1.values@[j],
                functions,
            ),
    decreases tags.len(),
{
    if tags.len() > 0 {
        let rest = tags.drop_first();
        lemma_function_references_exactly(rest, functions);
        lemma_missing_function_exactly(tags[0].0@, tags[0].1.values@, functions);
        assert forall|i: int| 0 <= i < rest.len() implies rest[i] == tags[i + 1] by {}
        if function_reference_problem(tags, functions) is None {
            assert forall|i: int, j: int|
                0 <= i < tags.len() && tag_registry_of(tags[i].0@) == function_registry() && 0 <= j
                    < tags[i].1.values@.len() implies function_entry_present(
                #[trigger] tags[i].1.values@[j],
                functions,
            ) by {
                if i > 0 {
                    assert(tags[i] == rest[i - 1]);
                }
            }
        } else {
            if tag_registry_of(tags[0].0@) == function_registry() && missing_function(
                tags[0].0@,
                tags[0].1.values@,
                functions,
            ) is Some {
                let j = choose|j: int|
                    0 <= j < tags[0].1.values@.len() && !function_entry_present(
                        #[trigger] tags[0].1.values@[j],
                        functions,
                    );
                assert(!function_entry_present(tags[0].1.values@[j], functions));
            } else {
                let (i, j) = choose|i: int, j: int|
                    0 <= i < rest.len() && tag_registry_of(rest[i].0@) == function_registry() && 0 <= j
                        < rest[i].1.values@.len() && !function_entry_present(
                        #[trigger] rest[i].1.values@[j],
                        functions,
                    );
                assert(rest[i] == tags[i + 1]);
                assert(!function_entry_present(tags[i + 1].1.values@[j], functions));
            }
        }
    }
}

/// Every required element of a function tag must name a loaded function.
pub fn validate_function_tag_references(
    snapshot: &TagSnapshot,
    functions: &Vec<(String, Vec<String>)>,
) -> (r: Result<(), DataPackError>)
    ensures
        match function_reference_problem(
            snapshot.tags@,
            functions@.map_values(|p: (String, Vec<String>)| p.0@),
        ) {
            None => r is Ok,
            Some(problem) => r matches Err(e) && tag_problem_error(problem, e),
        },
{
    let ghost names = functions@.map_values(|p: (String, Vec<String>)| p.0@);
    let mut keys: Vec<Vec<char>> = Vec::new();
    let mut j: usize = 0;
    while j < functions.len()
        invariant
            j <= functions.len(),
            names == functions@.map_values(|p: (String, Vec<String>)| p.0@),
            vview(keys@) == names.take(j as int),
        decreases functions.len() - j,
    {
        keys.push(str_chars(functions[j].0.as_str()));
        assert(names.take(j + 1) =~= names.take(j as int).push(names[j as int]));
        j = j + 1;
    }
    assert(names.take(functions.len() as int) =~= names);
    let function_reg = str_chars("function");
    proof {
        reveal_strlit("function");
        assert(function_reg@ =~= function_registry());
    }
    let ghost tags = snapshot.tags@;
    let mut i: usize = 0;
    assert(tags.skip(0) =~= tags);
    while i < snapshot.tags.len()
        invariant
            i <= snapshot.tags.len(),
            tags == snapshot.tags@,
            vview(keys@) == names,
            names == functions@.map_values(|p: (String, Vec<String>)| p.0@),
            function_reg@ == function_registry(),
            function_reference_problem(tags, names) == function_reference_problem(tags.skip(i as int), names),
        decreases snapshot.tags.len() - i,
    {
        proof {
            assert(tags.skip(i as int)[0] == tags[i as int]);
            assert(tags.skip(i as int).drop_first() =~= tags.skip(i + 1));
        }
        let tag_id = str_chars(snapshot.tags[i].0.as_str());
        let reg = tag_registry(&tag_id);
        if chars_eq(&reg, &function_reg) {
            let values = &snapshot.tags[i].1.values;
            let ghost vals = values@;
            let mut k: usize = 0;
            assert(vals.skip(0) =~= vals);
            while k < values.len()
                invariant
                    k <= values.len(),
                    i < tags.len(),
                    vals == values@,
                    vals == tags[i as int].1.values@,
                    vview(keys@) == names,
                    names == functions@.map_values(|p: (String, Vec<String>)| p.0@),
                    tags == snapshot.tags@,
                    tag_id@ == tags[i as int].0@,
                    tag_registry_of(tag_id@) == function_registry(),
                    function_reference_problem(tags, names) == function_reference_problem(tags.skip(i as int), names),
                    function_reference_problem(tags.skip(i as int), names) == match missing_function(tag_id@, vals, names) {
                        Some(problem) => Some(problem),
                        None => function_reference_problem(tags.skip(i + 1), names),
                    },
                    missing_function(tag_id@, vals, names) == missing_function(tag_id@, vals.skip(k as int), names),
                decreases values.len() - k,
            {
                proof {
                    assert(vals.skip(k as int)[0] == vals[k as int]);
                    assert(vals.skip(k as int).drop_first() =~= vals.skip(k + 1));
                }
                match &values[k] {
                    TagValue::Element { id, required } => {
                        let idc = str_chars(id.as_str());
                        if *required && !contains_chars(&keys, &idc) {
                            let path = crate::text::string_from_chars(&tag_id);
                            let message = text3("required function ", &idc, " does not exist");
                            return Err(DataPackError::InvalidTag { path, message });
                        }
                    },
                    TagValue::Tag { .. } => {},
                }
                k = k + 1;
            }
        }
        i = i + 1;
    }
    Ok(())
}

impl TagSnapshot {
    /// Collects the elements reached from `tag_id` into `result`, skipping
    /// ones it already holds; `visiting` (the tags on the current path) is
    /// handed back unchanged.
    fn collect(
        &self,
        tag_id: &Vec<char>,
        visiting: Vec<Vec<char>>,
        filtered: bool,
        result: &mut Vec<Vec<char>>,
    ) -> (back: Vec<Vec<char>>)
        ensures
            vview(back@) == vview(visiting@),
            vview(final(result)@) == dedup_append(
                vview(old(result)@),
                emit_tag(self.tags@, self.vanilla, tag_id@, vview(visiting@).to_set(), filtered),
            ),
        decreases unvisited(self.tags@, vview(visiting@).to_set()),
    {
        let ghost vset = vview(visiting@).to_set();
        if contains_chars(&visiting, tag_id) {
            return visiting;
        }
        let idx = match find_tag(&self.tags, tag_id) {
            None => {
                return visiting;
            },
            Some(i) => i,
        };
        let registry = tag_registry(tag_id);
        let ghost start_visiting = visiting@;
        let ghost start_result = vview(result@);
        let mut path = visiting;
        let own = slice_chars(tag_id, 0, tag_id.len());
        path.push(own);
        proof {
            assert(own@ =~= tag_id@);
            assert(path@ == start_visiting.push(own));
            assert(vview(path@) =~= vview(start_visiting).push(tag_id@));
            assert(vview(start_visiting).push(tag_id@) =~= vview(start_visiting) + seq![tag_id@]);
            Seq::lemma_to_set_insert_commutes(vview(start_visiting), tag_id@);
            lemma_unvisited_decreases(self.tags@, vset, tag_id@);
        }
        let ghost inner = vview(path@).to_set();
        assert(inner == vset.insert(tag_id@));
        let values = &self.tags[idx].1.values;
        let ghost vals = values@;
        assert(vals.take(0) =~= Seq::<TagValue>::empty());
        let mut i: usize = 0;
        while i < values.len()
            invariant
                i <= values.len(),
                vals == values@,
                vview(path@).to_set() == inner,
                vview(path@) == vview(start_visiting).push(tag_id@),
                inner == vset.insert(tag_id@),
                vset == vview(visiting@).to_set(),
                unvisited(self.tags@, inner) < unvisited(self.tags@, vset),
                registry@ == tag_registry_of(tag_id@),
                vview(result@) == dedup_append(
                    start_result,
                    emit_values(self.tags@, self.vanilla, registry@, vals.take(i as int), inner, filtered),
                ),
            decreases values.len() - i,
        {
            let ghost before = vview(result@);
            let ghost prefix = emit_values(self.tags@, self.vanilla, registry@, vals.take(i as int), inner, filtered);
            let ghost piece = match vals[i as int] {
                TagValue::Element { id, .. } => if !filtered || element_resolves(registry@, id@, self.vanilla) {
                    seq![id@]
                } else {
                    Seq::empty()
                },
                TagValue::Tag { id, .. } => emit_tag(self.tags@, self.vanilla, id@, inner, filtered),
            };
            proof {
                assert(vals.take(i + 1).drop_last() =~= vals.take(i as int));
                assert(vals.take(i + 1).last() == vals[i as int]);
                assert(emit_values(self.tags@, self.vanilla, registry@, vals.take(i + 1), inner, filtered)
                    == prefix + piece);
                lemma_dedup_append_concat(start_result, prefix, piece);
            }
            match &values[i] {
                TagValue::Element { id, .. } => {
                    let idc = str_chars(id.as_str());
                    let keep = if filtered {
                        !is_known_vanilla_element(&registry, &idc) || known_element_exists(
                            &self.vanilla,
                            &registry,
                            &idc,
                        )
                    } else {
                        true
                    };
                    if keep {
                        assert(piece == seq![id@]);
                        assert(piece.drop_last() =~= Seq::<Seq<char>>::empty());
                        assert(dedup_append(before, piece.drop_last()) == before);
                        if !contains_chars(result, &idc) {
                            result.push(idc);
                            assert(vview(result@) =~= before.push(id@));
                        }
                    } else {
                        assert(piece =~= Seq::<Seq<char>>::empty());
                    }
                },
                TagValue::Tag { id, .. } => {
                    let idc = str_chars(id.as_str());
                    assert(unvisited(self.tags@, vview(path@).to_set()) < unvisited(self.tags@, vset));
                    path = self.collect(&idc, path, filtered, result);
                },
            }
            assert(vview(result@) == dedup_append(before, piece));
            i = i + 1;
        }
        assert(vals.take(vals.len() as int) =~= vals);
        let ghost full = path@;
        path.pop();
        proof {
            assert(vview(full) == vview(start_visiting).push(tag_id@));
            assert(vview(path@) =~= vview(full).drop_last());
            assert(vview(path@) =~= vview(start_visiting));
        }
        path
    }

    /// All resolved element ids of `tag_id`, in `String` order.  Optional
    /// entries whose vanilla element does not exist are left out, as the
    /// vanilla tag loader does; an invalid tag id has no members.
    pub fn members(&self, tag_id: &str) -> (r: Vec<String>)
        ensures
            strictly_sorted(sview(r@)),
            sview(r@).to_set() == match canonical_tag(tag_id@) {
                None => Set::empty(),
                Some(t) => emit_tag(self.tags@, self.vanilla, t, Set::empty(), true).to_set(),
            },
    {
        let canonical = match canonical_tag_id(tag_id) {
            Err(_) => {
                let r: Vec<String> = Vec::new();
                assert(sview(r@).to_set() =~= Set::empty());
                return r;
            },
            Ok(c) => c,
        };
        let t = str_chars(canonical.as_str());
        let visiting: Vec<Vec<char>> = Vec::new();
        let mut found: Vec<Vec<char>> = Vec::new();
        assert(vview(visiting@).to_set() =~= Set::empty());
        let _ = self.collect(&t, visiting, true, &mut found);
        let ghost emitted = emit_tag(self.tags@, self.vanilla, t@, Set::empty(), true);
        proof {
            assert(vview(Seq::<Vec<char>>::empty()) =~= Seq::<Seq<char>>::empty());
            lemma_dedup_append_set(Seq::empty(), emitted);
            assert(Seq::<Seq<char>>::empty().to_set().union(emitted.to_set()) =~= emitted.to_set());
        }
        let mut sorted: Vec<Vec<char>> = Vec::new();
        let mut i: usize = 0;
        while i < found.len()
            invariant
                i <= found.len(),
                strictly_sorted(vview(sorted@)),
                vview(sorted@).to_set() == vview(found@).take(i as int).to_set(),
            decreases found.len() - i,
        {
            let x = slice_chars(&found[i], 0, found[i].len());
            proof {
                assert(x@ == vview(found@)[i as int]);
                assert(vview(found@).take(i + 1) =~= vview(found@).take(i as int) + seq![vview(found@)[i as int]]);
                Seq::lemma_to_set_insert_commutes(vview(found@).take(i as int), vview(found@)[i as int]);
            }
            sorted_insert(&mut sorted, x);
            i = i + 1;
        }
        assert(vview(found@).take(found.len() as int) =~= vview(found@));
        strings_from_chars(&sorted)
    }

    /// Whether `element_id` is a member of `tag_id`.
    pub fn contains(&self, tag_id: &str, element_id: &str) -> (r: bool)
        ensures
            r == match canonical_element(element_id@) {
                None => false,
                Some(e) => match canonical_tag(tag_id@) {
                    None => false,
                    Some(t) => emit_tag(self.tags@, self.vanilla, t, Set::empty(), true).contains(e),
                },
            },
    {
        let element = match canonical_element_id(element_id) {
            Err(_) => {
                return false;
            },
            Ok(e) => e,
        };
        let members = self.members(tag_id);
        let found = chars_of_strings(&members);
        let e = str_chars(element.as_str());
        let r = contains_chars(&found, &e);
        proof {
            if canonical_tag(tag_id@) is Some {
                let t = canonical_tag(tag_id@).unwrap();
                let emitted = emit_tag(self.tags@, self.vanilla, t, Set::empty(), true);
                assert(vview(found@).to_set().contains(e@) == vview(found@).contains(e@));
                assert(emitted.to_set().contains(e@) == emitted.contains(e@));
            } else {
                assert(vview(found@).to_set().contains(e@) == vview(found@).contains(e@));
            }
        }
        r
    }

    /// The element ids of `tag_id` in declaration order, depth first, each
    /// listed once.  Unlike `members`, no vanilla filtering is applied: this
    /// is the order of `minecraft:tick` and `minecraft:load` functions.
    pub fn ordered_members(&self, tag_id: &str) -> (r: Vec<String>)
        ensures
            sview(r@) == match canonical_tag(tag_id@) {
                None => Seq::empty(),
                Some(t) => dedup_append(
                    Seq::empty(),
                    emit_tag(self.tags@, self.vanilla, t, Set::empty(), false),
                ),
            },
    {
        let canonical = match canonical_tag_id(tag_id) {
            Err(_) => {
                let r: Vec<String> = Vec::new();
                assert(sview(r@) =~= Seq::<Seq<char>>::empty());
                return r;
            },
            Ok(c) => c,
        };
        let t = str_chars(canonical.as_str());
        let visiting: Vec<Vec<char>> = Vec::new();
        let mut found: Vec<Vec<char>> = Vec::new();
        assert(vview(visiting@).to_set() =~= Set::empty());
        assert(vview(found@) =~= Seq::<Seq<char>>::empty());
        let _ = self.collect(&t, visiting, false, &mut found);
        strings_from_chars(&found)
    }
}

/// The ordered members of a tag name each element once, and they are the
/// same elements the unfiltered resolution reaches.
pub proof fn lemma_ordered_members_distinct(
    tags: Seq<(String, TagDefinition)>,
    vanilla: VanillaElements,
    t: Seq<char>,
)
    ensures
        dedup_append(Seq::empty(), emit_tag(tags, vanilla, t, Set::empty(), false)).no_duplicates(),
        dedup_append(Seq::empty(), emit_tag(tags, vanilla, t, Set::empty(), false)).to_set()
            == emit_tag(tags, vanilla, t, Set::empty(), false).to_set(),
{
    let e = emit_tag(tags, vanilla, t, Set::empty(), false);
    lemma_dedup_append_no_duplicates(Seq::empty(), e);
    lemma_dedup_append_set(Seq::empty(), e);
    assert(Seq::<Seq<char>>::empty().to_set().union(e.to_set()) =~= e.to_set());
}

/// The elements listed in a run of entries are among what the entries
/// resolve to, when they resolve.
proof fn lemma_listed_elements_emitted(
    tags: Seq<(String, TagDefinition)>,
    vanilla: VanillaElements,
    registry: Seq<char>,
    values: Seq<TagValue>,
    visiting: Set<Seq<char>>,
    filtered: bool,
    i: int,
)
    requires
        0 <= i < values.len(),
        values[i] is Element,
        !filtered || element_resolves(registry, values[i]->Element_id@, vanilla),
    ensures
        emit_values(tags, vanilla, registry, values, visiting, filtered).contains(values[i]->Element_id@),
    decreases values.len(),
{
    let rest = emit_values(tags, vanilla, registry, values.drop_last(), visiting, filtered);
    let whole = emit_values(tags, vanilla, registry, values, visiting, filtered);
    if i == values.len() - 1 {
        assert(whole[rest.len() as int] == values[i]->Element_id@);
    } else {
        lemma_listed_elements_emitted(tags, vanilla, registry, values.drop_last(), visiting, filtered, i);
        let k = choose|k: int| 0 <= k < rest.len() && rest[k] == values[i]->Element_id@;
        assert(whole[k] == rest[k]);
    }
}

/// Every element a tag lists directly is one of its members (for
/// `members`, when the element resolves).
pub proof fn lemma_direct_elements_are_members(
    tags: Seq<(String, TagDefinition)>,
    vanilla: VanillaElements,
    t: Seq<char>,
    i: int,
    filtered: bool,
)
    requires
        lookup(tags, t) is Some,
        0 <= i < lookup(tags, t)->0.values@.len(),
        lookup(tags, t)->0.values@[i] is Element,
        !filtered || element_resolves(
            tag_registry_of(t),
            lookup(tags, t)->0.values@[i]->Element_id@,
            vanilla,
        ),
    ensures
        emit_tag(tags, vanilla, t, Set::empty(), filtered).contains(
            lookup(tags, t)->0.values@[i]->Element_id@,
        ),
{
    let def = lookup(tags, t)->0;
    lemma_listed_elements_emitted(
        tags,
        vanilla,
        tag_registry_of(t),
        def.values@,
        Set::<Seq<char>>::empty().insert(t),
        filtered,
        i,
    );
}

/// What `contains` answers is membership in what `members` lists.
pub proof fn lemma_contains_is_membership(
    tags: Seq<(String, TagDefinition)>,
    vanilla: VanillaElements,
    t: Seq<char>,
    element: Seq<char>,
)
    ensures
        emit_tag(tags, vanilla, t, Set::empty(), true).contains(element) == emit_tag(
            tags,
            vanilla,
            t,
            Set::empty(),
            true,
        ).to_set().contains(element),
{
}

/// The keys of appended entries are new: none is among `seen` or repeated.
proof fn lemma_appended_values_fresh(seen: Seq<Seq<char>>, vals: Seq<TagValue>)
    requires
        seen.no_duplicates(),
    ensures
        (seen + value_keys(appended_values(seen, vals))).no_duplicates(),
    decreases vals.len(),
{
    if vals.len() > 0 {
        lemma_appended_values_fresh(seen, vals.drop_last());
        let a = appended_values(seen, vals.drop_last());
        let k = value_key(vals.last());
        if !(seen + value_keys(a)).contains(k) {
            assert(value_keys(a.push(vals.last())) =~= value_keys(a).push(k));
            assert(seen + value_keys(a.push(vals.last())) =~= (seen + value_keys(a)).push(k));
        }
    }
}

/// Merging a tag file: a replacing file leaves exactly its own entries; any
/// other file keeps the existing entries first and appends only entries
/// whose key is new, so no entry key repeats.
pub proof fn lemma_merge_keeps_entries_unique(existing: Option<TagDefinition>, incoming: TagDefinition)
    requires
        match existing {
            Some(d) => value_keys(d.values@).no_duplicates(),
            None => true,
        },
        incoming.replace ==> value_keys(incoming.values@).no_duplicates(),
    ensures
        incoming.replace ==> merged_values(existing, incoming) == incoming.values@,
        !incoming.replace ==> merged_values(existing, incoming).take(
            match existing {
                Some(d) => d.values@.len() as int,
                None => 0,
            },
        ) == match existing {
            Some(d) => d.values@,
            None => Seq::empty(),
        },
        value_keys(merged_values(existing, incoming)).no_duplicates(),
{
    if !incoming.replace {
        let base = match existing {
            Some(d) => d.values@,
            None => Seq::empty(),
        };
        assert(value_keys(base).no_duplicates());
        lemma_appended_values_fresh(value_keys(base), incoming.values@);
        let app = appended_values(value_keys(base), incoming.values@);
        assert(value_keys(base + app) =~= value_keys(base) + value_keys(app));
        assert((base + app).take(base.len() as int) =~= base);
    }
}

/// The entry that a tag file's value with id `raw` and flag `required`
/// gives, or the message that refuses it: an empty id (or a lone `#`) is
/// refused; `#`-prefixed ids are tag references, others elements, each in
/// canonical form.
pub open spec fn tag_entry_of(raw: Seq<char>, required: bool) -> Result<(bool, Seq<char>), Seq<char>> {
    if raw.len() == 0 || raw == seq!['#'] {
        Err("tag value id cannot be empty"@)
    } else if raw[0] == '#' {
        match canonical_tag(raw.drop_first()) {
            Some(id) => Ok((true, id)),
            None => Err("invalid tag reference: "@ + canonical_tag_error(raw.drop_first())),
        }
    } else {
        match canonical_element(raw) {
            Some(id) => Ok((false, id)),
            None => Err("invalid element id: "@ + identifier_error_text(
                split_identifier(raw).0,
                split_identifier(raw).1,
            )),
        }
    }
}

/// The entry a tag file value gives; errors name the file as `path`.
pub fn tag_value_from_entry(path: &str, raw_id: &str, required: bool) -> (r: Result<TagValue, DataPackError>)
    ensures
        match tag_entry_of(raw_id@, required) {
            Ok((is_tag, id)) => r matches Ok(v) && value_id(v) == id && value_required(v) == required
                && (v is Tag <==> is_tag),
            Err(m) => r matches Err(e) && tag_problem_error((path@, m), e),
        },
{
    let raw = str_chars(raw_id);
    if raw.len() == 0 || (raw.len() == 1 && raw[0] == '#') {
        assert(raw.len() == 1 ==> raw@ =~= seq!['#']);
        return Err(
            DataPackError::InvalidTag {
                path: crate::text::string_from_str(path),
                message: crate::text::string_from_str("tag value id cannot be empty"),
            },
        );
    }
    assert(raw@ != seq!['#']) by {
        if raw@ == seq!['#'] {
            assert(raw@.len() == 1 && raw@[0] == '#');
        }
    }
    if raw[0] == '#' {
        let rest = slice_chars(&raw, 1, raw.len());
        assert(rest@ =~= raw@.drop_first());
        let rest_s = crate::text::string_from_chars(&rest);
        match canonical_tag_id(rest_s.as_str()) {
            Ok(id) => Ok(TagValue::Tag { id, required }),
            Err(m) => {
                let mc = str_chars(m.as_str());
                let message = crate::datapack::text3("invalid tag reference: ", &mc, "");
                proof {
                    reveal_strlit("");
                    assert(message@ =~= "invalid tag reference: "@ + m@);
                }
                Err(DataPackError::InvalidTag { path: crate::text::string_from_str(path), message })
            },
        }
    } else {
        match canonical_element_id(raw_id) {
            Ok(id) => Ok(TagValue::Element { id, required }),
            Err(m) => {
                let mc = str_chars(m.as_str());
                let message = crate::datapack::text3("invalid element id: ", &mc, "");
                proof {
                    reveal_strlit("");
                    assert(message@ =~= "invalid element id: "@ + m@);
                }
                Err(DataPackError::InvalidTag { path: crate::text::string_from_str(path), message })
            },
        }
    }
}

} // verus!
