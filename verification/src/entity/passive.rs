//! Passive and neutral mobs: their goals, their flags and variants, and
//! what feeding, dyeing, shearing or equipping them decides.
use vstd::prelude::*;

use crate::entity::mobs::{GoalEntry, GoalKind, MobGoals, TargetType, entry};
use crate::text::{
    chars_eq_str, concat_chars, str_chars, string_from_chars, string_from_str, strip_prefix_or_keep,
    strip_prefix_or_keep_str,
};

verus! {

/// The axolotl variant a name gives: `lucy` and unknown names are 0.
pub open spec fn axolotl_variant_of(name: Seq<char>) -> int {
    let k = strip_prefix_or_keep(name, "minecraft:"@);
    if k == "wild"@ {
        1
    } else if k == "gold"@ {
        2
    } else if k == "cyan"@ {
        3
    } else if k == "blue"@ {
        4
    } else {
        0
    }
}

/// The axolotl variant of a (possibly namespaced) variant name.
pub fn axolotl_variant(name: &str) -> (r: u8)
    ensures
        r == axolotl_variant_of(name@),
{
    let all = str_chars(name);
    let k = strip_prefix_or_keep_str(&all, "minecraft:");
    if chars_eq_str(&k, "wild") {
        1
    } else if chars_eq_str(&k, "gold") {
        2
    } else if chars_eq_str(&k, "cyan") {
        3
    } else if chars_eq_str(&k, "blue") {
        4
    } else {
        0
    }
}

/// The salmon size a name gives: `medium` and unknown names are 1.
pub open spec fn salmon_size_of(name: Seq<char>) -> int {
    let k = strip_prefix_or_keep(name, "minecraft:"@);
    if k == "small"@ {
        0
    } else if k == "large"@ {
        2
    } else {
        1
    }
}

/// The salmon size of a (possibly namespaced) size name.
pub fn salmon_size(name: &str) -> (r: u8)
    ensures
        r == salmon_size_of(name@),
{
    let all = str_chars(name);
    let k = strip_prefix_or_keep_str(&all, "minecraft:");
    if chars_eq_str(&k, "small") {
        0
    } else if chars_eq_str(&k, "large") {
        2
    } else {
        1
    }
}

/// The packed pattern of a tropical fish pattern name: the shape in the low byte and the size (0 small, 1 large) in the next; unknown names are `kob`, 0.
pub open spec fn tropical_pattern_of(name: Seq<char>) -> int {
    let k = strip_prefix_or_keep(name, "minecraft:"@);
    if k == "sunstreak"@ {
        1
    } else if k == "snooper"@ {
        2
    } else if k == "dasher"@ {
        3
    } else if k == "brinely"@ {
        4
    } else if k == "spotty"@ {
        5
    } else if k == "flopper"@ {
        256
    } else if k == "stripey"@ {
        257
    } else if k == "glitter"@ {
        258
    } else if k == "blockfish"@ {
        259
    } else if k == "betty"@ {
        260
    } else if k == "clayfish"@ {
        261
    } else {
        0
    }
}

/// The packed pattern id of a (possibly namespaced) pattern name.
pub fn tropical_pattern_id(name: &str) -> (r: i32)
    ensures
        r == tropical_pattern_of(name@),
{
    let all = str_chars(name);
    let k = strip_prefix_or_keep_str(&all, "minecraft:");
    if chars_eq_str(&k, "sunstreak") {
        1
    } else if chars_eq_str(&k, "snooper") {
        2
    } else if chars_eq_str(&k, "dasher") {
        3
    } else if chars_eq_str(&k, "brinely") {
        4
    } else if chars_eq_str(&k, "spotty") {
        5
    } else if chars_eq_str(&k, "flopper") {
        256
    } else if chars_eq_str(&k, "stripey") {
        257
    } else if chars_eq_str(&k, "glitter") {
        258
    } else if chars_eq_str(&k, "blockfish") {
        259
    } else if chars_eq_str(&k, "betty") {
        260
    } else if chars_eq_str(&k, "clayfish") {
        261
    } else {
        0
    }
}

/// The dye color id of a color name: `white` and unknown names are 0.
pub open spec fn dye_color_of(name: Seq<char>) -> int {
    let k = strip_prefix_or_keep(name, "minecraft:"@);
    if k == "orange"@ {
        1
    } else if k == "magenta"@ {
        2
    } else if k == "light_blue"@ {
        3
    } else if k == "yellow"@ {
        4
    } else if k == "lime"@ {
        5
    } else if k == "pink"@ {
        6
    } else if k == "gray"@ {
        7
    } else if k == "light_gray"@ {
        8
    } else if k == "cyan"@ {
        9
    } else if k == "purple"@ {
        10
    } else if k == "blue"@ {
        11
    } else if k == "brown"@ {
        12
    } else if k == "green"@ {
        13
    } else if k == "red"@ {
        14
    } else if k == "black"@ {
        15
    } else {
        0
    }
}

/// The dye color id of a (possibly namespaced) color name.
pub fn dye_color_id(name: &str) -> (r: i32)
    ensures
        r == dye_color_of(name@),
{
    let all = str_chars(name);
    let k = strip_prefix_or_keep_str(&all, "minecraft:");
    if chars_eq_str(&k, "orange") {
        1
    } else if chars_eq_str(&k, "magenta") {
        2
    } else if chars_eq_str(&k, "light_blue") {
        3
    } else if chars_eq_str(&k, "yellow") {
        4
    } else if chars_eq_str(&k, "lime") {
        5
    } else if chars_eq_str(&k, "pink") {
        6
    } else if chars_eq_str(&k, "gray") {
        7
    } else if chars_eq_str(&k, "light_gray") {
        8
    } else if chars_eq_str(&k, "cyan") {
        9
    } else if chars_eq_str(&k, "purple") {
        10
    } else if chars_eq_str(&k, "blue") {
        11
    } else if chars_eq_str(&k, "brown") {
        12
    } else if chars_eq_str(&k, "green") {
        13
    } else if chars_eq_str(&k, "red") {
        14
    } else if chars_eq_str(&k, "black") {
        15
    } else {
        0
    }
}

/// The cat variant a name gives: `tabby` and unknown names are 9.
pub open spec fn cat_variant_of(name: Seq<char>) -> int {
    let k = strip_prefix_or_keep(name, "minecraft:"@);
    if k == "all_black"@ {
        0
    } else if k == "black"@ {
        1
    } else if k == "british_shorthair"@ {
        2
    } else if k == "calico"@ {
        3
    } else if k == "jellie"@ {
        4
    } else if k == "persian"@ {
        5
    } else if k == "ragdoll"@ {
        6
    } else if k == "red"@ {
        7
    } else if k == "siamese"@ {
        8
    } else if k == "white"@ {
        10
    } else {
        9
    }
}

/// The cat variant of a (possibly namespaced) variant name.
pub fn cat_variant(name: &str) -> (r: u8)
    ensures
        r == cat_variant_of(name@),
{
    let all = str_chars(name);
    let k = strip_prefix_or_keep_str(&all, "minecraft:");
    if chars_eq_str(&k, "all_black") {
        0
    } else if chars_eq_str(&k, "black") {
        1
    } else if chars_eq_str(&k, "british_shorthair") {
        2
    } else if chars_eq_str(&k, "calico") {
        3
    } else if chars_eq_str(&k, "jellie") {
        4
    } else if chars_eq_str(&k, "persian") {
        5
    } else if chars_eq_str(&k, "ragdoll") {
        6
    } else if chars_eq_str(&k, "red") {
        7
    } else if chars_eq_str(&k, "siamese") {
        8
    } else if chars_eq_str(&k, "white") {
        10
    } else {
        9
    }
}

/// The wolf variant a name gives: `pale` and unknown names are 3.
pub open spec fn wolf_variant_of(name: Seq<char>) -> int {
    let k = strip_prefix_or_keep(name, "minecraft:"@);
    if k == "ashen"@ {
        0
    } else if k == "black"@ {
        1
    } else if k == "chestnut"@ {
        2
    } else if k == "rusty"@ {
        4
    } else if k == "snowy"@ {
        5
    } else if k == "spotted"@ {
        6
    } else if k == "striped"@ {
        7
    } else if k == "woods"@ {
        8
    } else {
        3
    }
}

/// The wolf variant of a (possibly namespaced) variant name.
pub fn wolf_variant(name: &str) -> (r: u8)
    ensures
        r == wolf_variant_of(name@),
{
    let all = str_chars(name);
    let k = strip_prefix_or_keep_str(&all, "minecraft:");
    if chars_eq_str(&k, "ashen") {
        0
    } else if chars_eq_str(&k, "black") {
        1
    } else if chars_eq_str(&k, "chestnut") {
        2
    } else if chars_eq_str(&k, "rusty") {
        4
    } else if chars_eq_str(&k, "snowy") {
        5
    } else if chars_eq_str(&k, "spotted") {
        6
    } else if chars_eq_str(&k, "striped") {
        7
    } else if chars_eq_str(&k, "woods") {
        8
    } else {
        3
    }
}

/// The collar color that a dye item of registry key `key` gives.
pub open spec fn dye_item_color_of(key: Seq<char>) -> Option<u8> {
    if key == "white_dye"@ || key == "minecraft:white_dye"@ {
        Some(0u8)
    } else if key == "orange_dye"@ || key == "minecraft:orange_dye"@ {
        Some(1u8)
    } else if key == "magenta_dye"@ || key == "minecraft:magenta_dye"@ {
        Some(2u8)
    } else if key == "light_blue_dye"@ || key == "minecraft:light_blue_dye"@ {
        Some(3u8)
    } else if key == "yellow_dye"@ || key == "minecraft:yellow_dye"@ {
        Some(4u8)
    } else if key == "lime_dye"@ || key == "minecraft:lime_dye"@ {
        Some(5u8)
    } else if key == "pink_dye"@ || key == "minecraft:pink_dye"@ {
        Some(6u8)
    } else if key == "gray_dye"@ || key == "minecraft:gray_dye"@ {
        Some(7u8)
    } else if key == "light_gray_dye"@ || key == "minecraft:light_gray_dye"@ {
        Some(8u8)
    } else if key == "cyan_dye"@ || key == "minecraft:cyan_dye"@ {
        Some(9u8)
    } else if key == "purple_dye"@ || key == "minecraft:purple_dye"@ {
        Some(10u8)
    } else if key == "blue_dye"@ || key == "minecraft:blue_dye"@ {
        Some(11u8)
    } else if key == "brown_dye"@ || key == "minecraft:brown_dye"@ {
        Some(12u8)
    } else if key == "green_dye"@ || key == "minecraft:green_dye"@ {
        Some(13u8)
    } else if key == "red_dye"@ || key == "minecraft:red_dye"@ {
        Some(14u8)
    } else if key == "black_dye"@ || key == "minecraft:black_dye"@ {
        Some(15u8)
    } else {
        None
    }
}

/// The collar color of a dye item, by its registry key (with or without
/// the `minecraft:` namespace); other items give none.
pub fn dye_color_from_item(key: &str) -> (r: Option<u8>)
    ensures
        r == dye_item_color_of(key@),
{
    let k = str_chars(key);
    if chars_eq_str(&k, "white_dye") || chars_eq_str(&k, "minecraft:white_dye") {
        Some(0)
    } else if chars_eq_str(&k, "orange_dye") || chars_eq_str(&k, "minecraft:orange_dye") {
        Some(1)
    } else if chars_eq_str(&k, "magenta_dye") || chars_eq_str(&k, "minecraft:magenta_dye") {
        Some(2)
    } else if chars_eq_str(&k, "light_blue_dye") || chars_eq_str(&k, "minecraft:light_blue_dye") {
        Some(3)
    } else if chars_eq_str(&k, "yellow_dye") || chars_eq_str(&k, "minecraft:yellow_dye") {
        Some(4)
    } else if chars_eq_str(&k, "lime_dye") || chars_eq_str(&k, "minecraft:lime_dye") {
        Some(5)
    } else if chars_eq_str(&k, "pink_dye") || chars_eq_str(&k, "minecraft:pink_dye") {
        Some(6)
    } else if chars_eq_str(&k, "gray_dye") || chars_eq_str(&k, "minecraft:gray_dye") {
        Some(7)
    } else if chars_eq_str(&k, "light_gray_dye") || chars_eq_str(&k, "minecraft:light_gray_dye") {
        Some(8)
    } else if chars_eq_str(&k, "cyan_dye") || chars_eq_str(&k, "minecraft:cyan_dye") {
        Some(9)
    } else if chars_eq_str(&k, "purple_dye") || chars_eq_str(&k, "minecraft:purple_dye") {
        Some(10)
    } else if chars_eq_str(&k, "blue_dye") || chars_eq_str(&k, "minecraft:blue_dye") {
        Some(11)
    } else if chars_eq_str(&k, "brown_dye") || chars_eq_str(&k, "minecraft:brown_dye") {
        Some(12)
    } else if chars_eq_str(&k, "green_dye") || chars_eq_str(&k, "minecraft:green_dye") {
        Some(13)
    } else if chars_eq_str(&k, "red_dye") || chars_eq_str(&k, "minecraft:red_dye") {
        Some(14)
    } else if chars_eq_str(&k, "black_dye") || chars_eq_str(&k, "minecraft:black_dye") {
        Some(15)
    } else {
        None
    }
}

/// Builds a goal list from a sequence of registrations.
fn goal_list(entries: &[GoalEntry]) -> (r: Vec<GoalEntry>)
    ensures
        r@ == entries@,
{
    let mut out: Vec<GoalEntry> = Vec::new();
    let mut i: usize = 0;
    while i < entries.len()
        invariant
            i <= entries.len(),
            out@ == entries@.take(i as int),
        decreases entries.len() - i,
    {
        out.push(entries[i]);
        assert(entries@.take(i + 1) =~= entries@.take(i as int).push(entries@[i as int]));
        i = i + 1;
    }
    assert(entries@.take(entries.len() as int) =~= entries@);
    out
}

/// The goals of a small water mob (axolotl, salmon, tropical fish).
pub open spec fn swimmer_goals() -> Seq<GoalEntry> {
    seq![
        entry(0, GoalKind::Swim),
        entry(1, GoalKind::WanderAround { speed: 100 }),
        entry(2, GoalKind::LookAt { target: TargetType::Player, range: 6 }),
        entry(3, GoalKind::RandomLookAround),
    ]
}

fn swimmer_goal_list() -> (r: MobGoals)
    ensures
        r.goals@ == swimmer_goals(),
        r.targets@ == Seq::<GoalEntry>::empty(),
{
    let goals = goal_list(
        &[
            GoalEntry { priority: 0, goal: GoalKind::Swim },
            GoalEntry { priority: 1, goal: GoalKind::WanderAround { speed: 100 } },
            GoalEntry { priority: 2, goal: GoalKind::LookAt { target: TargetType::Player, range: 6 } },
            GoalEntry { priority: 3, goal: GoalKind::RandomLookAround },
        ],
    );
    let r = MobGoals { goals, targets: Vec::new() };
    assert(r.goals@ =~= swimmer_goals());
    r
}

/// The variant name an axolotl is stored with.
pub open spec fn axolotl_name_of(variant: u8) -> Seq<char> {
    if variant == 1 {
        "wild"@
    } else if variant == 2 {
        "gold"@
    } else if variant == 3 {
        "cyan"@
    } else if variant == 4 {
        "blue"@
    } else {
        "lucy"@
    }
}

/// An axolotl and its color variant (0 lucy, 1 wild, 2 gold, 3 cyan,
/// 4 blue).
pub struct AxolotlEntity {
    pub mob: MobGoals,
    pub variant: u8,
}

impl AxolotlEntity {
    pub fn new() -> (r: AxolotlEntity)
        ensures
            r.mob.goals@ == swimmer_goals(),
            r.mob.targets@ == Seq::<GoalEntry>::empty(),
            r.variant == 0,
    {
        AxolotlEntity { mob: swimmer_goal_list(), variant: 0 }
    }

    /// Sets the variant from a (possibly namespaced) name.
    pub fn set_variant_value(&mut self, value: &str)
        ensures
            final(self).variant == axolotl_variant_of(value@),
            final(self).mob.goals@ == old(self).mob.goals@,
    {
        self.variant = axolotl_variant(value);
    }

    /// The name the variant is stored under.
    pub fn variant_name(&self) -> (r: String)
        ensures
            r@ == axolotl_name_of(self.variant),
    {
        if self.variant == 1 {
            string_from_str("wild")
        } else if self.variant == 2 {
            string_from_str("gold")
        } else if self.variant == 3 {
            string_from_str("cyan")
        } else if self.variant == 4 {
            string_from_str("blue")
        } else {
            string_from_str("lucy")
        }
    }
}

/// A stored axolotl variant reads back as the same variant.
pub proof fn lemma_axolotl_variant_round_trip(variant: u8)
    requires
        variant <= 4,
    ensures
        axolotl_variant_of(axolotl_name_of(variant)) == variant,
{
    reveal_strlit("minecraft:");
    reveal_strlit("wild");
    reveal_strlit("gold");
    reveal_strlit("cyan");
    reveal_strlit("blue");
    reveal_strlit("lucy");
    let n = axolotl_name_of(variant);
    assert(strip_prefix_or_keep(n, "minecraft:"@) == n);
    assert("wild"@ != "gold"@ && "wild"@ != "cyan"@ && "wild"@ != "blue"@ && "wild"@ != "lucy"@) by {
        assert("wild"@[0] != "gold"@[0] && "wild"@[0] != "cyan"@[0] && "wild"@[0] != "blue"@[0]
            && "wild"@[0] != "lucy"@[0]);
    }
    assert("gold"@ != "cyan"@ && "gold"@ != "blue"@ && "gold"@ != "lucy"@) by {
        assert("gold"@[0] != "cyan"@[0] && "gold"@[0] != "blue"@[0] && "gold"@[0] != "lucy"@[0]);
    }
    assert("cyan"@ != "blue"@ && "cyan"@ != "lucy"@) by {
        assert("cyan"@[0] != "blue"@[0] && "cyan"@[0] != "lucy"@[0]);
    }
    assert("blue"@ != "lucy"@) by {
        assert("blue"@[1] != "lucy"@[1]);
    }
}

/// The size name a salmon is stored with.
pub open spec fn salmon_name_of(size: u8) -> Seq<char> {
    if size == 0 {
        "small"@
    } else if size == 2 {
        "large"@
    } else {
        "medium"@
    }
}

/// A salmon and its size (0 small, 1 medium, 2 large).
pub struct SalmonEntity {
    pub mob: MobGoals,
    pub size: u8,
}

impl SalmonEntity {
    pub fn new() -> (r: SalmonEntity)
        ensures
            r.mob.goals@ == swimmer_goals(),
            r.mob.targets@ == Seq::<GoalEntry>::empty(),
            r.size == 1,
    {
        SalmonEntity { mob: swimmer_goal_list(), size: 1 }
    }

    /// Sets the size from a (possibly namespaced) name.
    pub fn set_size(&mut self, value: &str)
        ensures
            final(self).size == salmon_size_of(value@),
            final(self).mob.goals@ == old(self).mob.goals@,
    {
        self.size = salmon_size(value);
    }

    /// The name the size is stored under.
    pub fn size_name(&self) -> (r: String)
        ensures
            r@ == salmon_name_of(self.size),
    {
        if self.size == 0 {
            string_from_str("small")
        } else if self.size == 2 {
            string_from_str("large")
        } else {
            string_from_str("medium")
        }
    }
}

/// A stored salmon size reads back as the same size.
pub proof fn lemma_salmon_size_round_trip(size: u8)
    requires
        size <= 2,
    ensures
        salmon_size_of(salmon_name_of(size)) == size,
{
    reveal_strlit("minecraft:");
    reveal_strlit("small");
    reveal_strlit("large");
    reveal_strlit("medium");
    let n = salmon_name_of(size);
    assert(strip_prefix_or_keep(n, "minecraft:"@) == n);
    assert("small"@ != "large"@) by {
        assert("small"@[0] != "large"@[0]);
    }
    assert("medium"@ != "small"@ && "medium"@ != "large"@) by {
        assert("medium"@.len() != "small"@.len());
        assert("medium"@.len() != "large"@.len());
    }
}

/// A tropical fish variant: the packed pattern in the low 16 bits, the
/// base color from bit 16 and the pattern color from bit 24.
pub open spec fn tropical_variant(pattern: int, base: int, pattern_color: int) -> int {
    pattern + base * 0x10000 + pattern_color * 0x1000000
}

/// A tropical fish and its packed variant.
pub struct TropicalFishEntity {
    pub mob: MobGoals,
    pub variant: i32,
}

impl TropicalFishEntity {
    /// A fish of the default variant, a white-on-white kob.
    pub fn new() -> (r: TropicalFishEntity)
        ensures
            r.mob.goals@ == swimmer_goals(),
            r.mob.targets@ == Seq::<GoalEntry>::empty(),
            r.variant == 0,
    {
        TropicalFishEntity { mob: swimmer_goal_list(), variant: 0 }
    }

    /// Packs a variant from a pattern name and two color names.
    pub fn variant_of(pattern: &str, base_color: &str, pattern_color: &str) -> (r: i32)
        ensures
            r == tropical_variant(
                tropical_pattern_of(pattern@),
                dye_color_of(base_color@),
                dye_color_of(pattern_color@),
            ),
    {
        let p = tropical_pattern_id(pattern);
        let b = dye_color_id(base_color);
        let c = dye_color_id(pattern_color);
        let pu = p as u32;
        let bu = b as u32;
        let cu = c as u32;
        assert(pu | (bu << 16) | (cu << 24) == pu + bu * 0x10000 + cu * 0x1000000) by (bit_vector)
            requires
                pu < 0x10000,
                bu < 16,
                cu < 16,
        ;
        (pu | (bu << 16) | (cu << 24)) as i32
    }

    /// Sets the variant from a pattern name and two color names.
    pub fn set_variant_components(&mut self, pattern: &str, base_color: &str, pattern_color: &str)
        ensures
            final(self).variant == tropical_variant(
                tropical_pattern_of(pattern@),
                dye_color_of(base_color@),
                dye_color_of(pattern_color@),
            ),
            final(self).mob.goals@ == old(self).mob.goals@,
    {
        self.variant = Self::variant_of(pattern, base_color, pattern_color);
    }
}

/// The tameable-flags byte: bit 0 sitting, bit 2 tamed.
pub open spec fn tameable_flags_of(sitting: bool, tamed: bool) -> int {
    (if sitting {
        1int
    } else {
        0
    }) + (if tamed {
        4int
    } else {
        0
    })
}

/// The tameable-flags byte of a cat or wolf.
pub fn tameable_flags(sitting: bool, tamed: bool) -> (r: u8)
    ensures
        r == tameable_flags_of(sitting, tamed),
{
    let s: u8 = if sitting {
        1
    } else {
        0
    };
    let t: u8 = if tamed {
        4
    } else {
        0
    };
    assert(s | t == s + t) by (bit_vector)
        requires
            s <= 1,
            t == 0 || t == 4,
    ;
    s | t
}

/// What interacting with a cat or wolf does.
#[derive(Clone, Copy, Debug, PartialEq, Eq, Structural)]
pub enum TameInteraction {
    /// The interaction is left to the generic mob handling.
    Pass,
    /// The owner dyed the collar; `changed` says whether the color was new
    /// (then the dye is used up).
    DyeCollar { color: u8, changed: bool },
    /// Food healed the pet by two points; one item is used up.
    Feed,
    /// The owner made the pet sit (or stand).
    Sit { sitting: bool },
    /// A taming attempt; one item is used up; one in three succeeds, and
    /// the pet then belongs to the player and sits.
    Tame { success: bool },
}

/// What a cat decides when a player uses an item on it: a tamed cat is
/// dyed by its owner, fed fish when hurt, or told to sit by its owner; a
/// wild cat is tamed with fish (`roll` is a draw below 3).
pub open spec fn cat_interaction_of(
    tamed: bool,
    is_owner: bool,
    dye: Option<u8>,
    collar: u8,
    is_fish: bool,
    hurt: bool,
    sitting: bool,
    roll: u32,
) -> TameInteraction {
    if tamed {
        if dye is Some && is_owner {
            TameInteraction::DyeCollar { color: dye->0, changed: dye->0 != collar }
        } else if is_fish && hurt {
            TameInteraction::Feed
        } else if is_owner {
            TameInteraction::Sit { sitting: !sitting }
        } else {
            TameInteraction::Pass
        }
    } else if is_fish {
        TameInteraction::Tame { success: roll == 0 }
    } else {
        TameInteraction::Pass
    }
}

/// What a wolf decides when a player uses an item on it: a tamed wolf is
/// fed wolf food when hurt, dyed by its owner, or told to sit by its owner;
/// a wild wolf is tamed with a bone (`roll` is a draw below 3).
pub open spec fn wolf_interaction_of(
    tamed: bool,
    is_owner: bool,
    dye: Option<u8>,
    collar: u8,
    is_wolf_food: bool,
    is_bone: bool,
    hurt: bool,
    sitting: bool,
    roll: u32,
) -> TameInteraction {
    if tamed {
        if is_wolf_food && hurt {
            TameInteraction::Feed
        } else if dye is Some && is_owner {
            TameInteraction::DyeCollar { color: dye->0, changed: dye->0 != collar }
        } else if is_owner {
            TameInteraction::Sit { sitting: !sitting }
        } else {
            TameInteraction::Pass
        }
    } else if is_bone {
        TameInteraction::Tame { success: roll == 0 }
    } else {
        TameInteraction::Pass
    }
}

/// The cat's decision, by `cat_interaction_of`.
pub fn cat_interaction(
    tamed: bool,
    is_owner: bool,
    dye: Option<u8>,
    collar: u8,
    is_fish: bool,
    hurt: bool,
    sitting: bool,
    roll: u32,
) -> (r: TameInteraction)
    ensures
        r == cat_interaction_of(tamed, is_owner, dye, collar, is_fish, hurt, sitting, roll),
{
    if tamed {
        if let Some(color) = dye {
            if is_owner {
                return TameInteraction::DyeCollar { color, changed: color != collar };
            }
        }
        if is_fish && hurt {
            TameInteraction::Feed
        } else if is_owner {
            TameInteraction::Sit { sitting: !sitting }
        } else {
            TameInteraction::Pass
        }
    } else if is_fish {
        TameInteraction::Tame { success: roll == 0 }
    } else {
        TameInteraction::Pass
    }
}

/// The wolf's decision, by `wolf_interaction_of`.
pub fn wolf_interaction(
    tamed: bool,
    is_owner: bool,
    dye: Option<u8>,
    collar: u8,
    is_wolf_food: bool,
    is_bone: bool,
    hurt: bool,
    sitting: bool,
    roll: u32,
) -> (r: TameInteraction)
    ensures
        r == wolf_interaction_of(
            tamed,
            is_owner,
            dye,
            collar,
            is_wolf_food,
            is_bone,
            hurt,
            sitting,
            roll,
        ),
{
    if tamed {
        if is_wolf_food && hurt {
            return TameInteraction::Feed;
        }
        if let Some(color) = dye {
            if is_owner {
                return TameInteraction::DyeCollar { color, changed: color != collar };
            }
        }
        if is_owner {
            TameInteraction::Sit { sitting: !sitting }
        } else {
            TameInteraction::Pass
        }
    } else if is_bone {
        TameInteraction::Tame { success: roll == 0 }
    } else {
        TameInteraction::Pass
    }
}

/// The pet state that interactions change.
#[derive(Clone, Copy, Debug, PartialEq, Eq, Structural)]
pub struct PetState {
    pub tamed: bool,
    pub sitting: bool,
    pub collar_color: u8,
    /// The owner's UUID, as a 128-bit number.
    pub owner: Option<u128>,
}

/// The state of a pet nobody has tamed yet.
pub open spec fn wild_pet() -> PetState {
    PetState { tamed: false, sitting: false, collar_color: DEFAULT_COLLAR_COLOR, owner: None }
}

/// The pet state after `player` interacted: dyeing sets the collar,
/// sitting toggles, and a successful taming tames the pet, makes it sit and
/// gives it the player as owner.
pub fn apply_interaction(state: PetState, interaction: TameInteraction, player: u128) -> (r: PetState)
    ensures
        r == apply_interaction_of(state, interaction, player),
{
    match interaction {
        TameInteraction::DyeCollar { color, .. } => PetState { collar_color: color, ..state },
        TameInteraction::Sit { sitting } => PetState { sitting, ..state },
        TameInteraction::Tame { success } => if success {
            PetState { tamed: true, sitting: true, owner: Some(player), ..state }
        } else {
            state
        },
        _ => state,
    }
}

/// The goals of a wolf.
pub open spec fn wolf_goals() -> Seq<GoalEntry> {
    seq![
        entry(1, GoalKind::Swim),
        entry(4, GoalKind::EscapeDanger { speed: 150 }),
        entry(5, GoalKind::MeleeAttack { speed: 100, pause_when_idle: true }),
        entry(6, GoalKind::FollowOwner { speed: 100, min_distance: 2, max_distance: 10 }),
        entry(7, GoalKind::Breed { speed: 100 }),
        entry(8, GoalKind::FollowParent { speed: 110 }),
        entry(9, GoalKind::BegForBone { range: 8 }),
        entry(10, GoalKind::LookAt { target: TargetType::Player, range: 8 }),
        entry(10, GoalKind::RandomLookAround),
        entry(12, GoalKind::WanderAround { speed: 100 }),
    ]
}

/// The target goals of a wolf.
pub open spec fn wolf_targets() -> Seq<GoalEntry> {
    seq![
        entry(1, GoalKind::OwnerHurtByTarget),
        entry(2, GoalKind::OwnerHurtTarget),
        entry(3, GoalKind::Revenge { call_for_help: true }),
        entry(7, GoalKind::ActiveTarget { target: TargetType::Skeleton, must_see: false }),
        entry(7, GoalKind::ActiveTarget { target: TargetType::WitherSkeleton, must_see: false }),
        entry(7, GoalKind::ActiveTarget { target: TargetType::Stray, must_see: false }),
        entry(7, GoalKind::ActiveTarget { target: TargetType::Bogged, must_see: false }),
    ]
}

/// The goals of a cat.
pub open spec fn cat_goals() -> Seq<GoalEntry> {
    seq![
        entry(1, GoalKind::Swim),
        entry(1, GoalKind::EscapeDanger { speed: 150 }),
        entry(
            4,
            GoalKind::Avoid { target: TargetType::Player, distance: 16, slow_speed: 80, fast_speed: 133 },
        ),
        entry(4, GoalKind::TemptWithFish { speed: 60 }),
        entry(5, GoalKind::Breed { speed: 80 }),
        entry(6, GoalKind::FollowOwner { speed: 100, min_distance: 5, max_distance: 10 }),
        entry(9, GoalKind::FollowParent { speed: 80 }),
        entry(11, GoalKind::WanderAround { speed: 80 }),
        entry(12, GoalKind::LookAt { target: TargetType::Player, range: 10 }),
        entry(12, GoalKind::RandomLookAround),
    ]
}

/// The target goals of a cat.
pub open spec fn cat_targets() -> Seq<GoalEntry> {
    seq![
        entry(1, GoalKind::ActiveTarget { target: TargetType::Rabbit, must_see: false }),
        entry(1, GoalKind::ActiveTarget { target: TargetType::Turtle, must_see: false }),
    ]
}

/// The collar color a new pet wears: red.
pub const DEFAULT_COLLAR_COLOR: u8 = 14;

/// The key of a wolf variant (unknown variants as pale).
pub open spec fn wolf_key_of(variant: u8) -> Seq<char> {
    if variant == 0 {
        "ashen"@
    } else if variant == 1 {
        "black"@
    } else if variant == 2 {
        "chestnut"@
    } else if variant == 4 {
        "rusty"@
    } else if variant == 5 {
        "snowy"@
    } else if variant == 6 {
        "spotted"@
    } else if variant == 7 {
        "striped"@
    } else if variant == 8 {
        "woods"@
    } else {
        "pale"@
    }
}

/// The name a wolf variant is stored under: its namespaced key.
pub open spec fn wolf_name_of(variant: u8) -> Seq<char> {
    "minecraft:"@ + wolf_key_of(variant)
}

/// The key of a cat variant (unknown variants as tabby).
pub open spec fn cat_key_of(variant: u8) -> Seq<char> {
    if variant == 0 {
        "all_black"@
    } else if variant == 1 {
        "black"@
    } else if variant == 2 {
        "british_shorthair"@
    } else if variant == 3 {
        "calico"@
    } else if variant == 4 {
        "jellie"@
    } else if variant == 5 {
        "persian"@
    } else if variant == 6 {
        "ragdoll"@
    } else if variant == 7 {
        "red"@
    } else if variant == 8 {
        "siamese"@
    } else if variant == 10 {
        "white"@
    } else {
        "tabby"@
    }
}

/// The name a cat variant is stored under: its namespaced key.
pub open spec fn cat_name_of(variant: u8) -> Seq<char> {
    "minecraft:"@ + cat_key_of(variant)
}

/// A namespaced key loses exactly its namespace.
proof fn lemma_strip_namespace(key: Seq<char>)
    ensures
        strip_prefix_or_keep("minecraft:"@ + key, "minecraft:"@) == key,
{
    let p = "minecraft:"@;
    assert(("minecraft:"@ + key).take(p.len() as int) =~= p);
    assert(("minecraft:"@ + key).skip(p.len() as int) =~= key);
}

/// A stored wolf variant reads back as the same variant.
pub proof fn lemma_wolf_variant_round_trip(variant: u8)
    requires
        variant <= 8,
    ensures
        wolf_variant_of(wolf_name_of(variant)) == variant,
{
    lemma_strip_namespace(wolf_key_of(variant));
    reveal_strlit("ashen");
    reveal_strlit("black");
    reveal_strlit("chestnut");
    reveal_strlit("rusty");
    reveal_strlit("snowy");
    reveal_strlit("spotted");
    reveal_strlit("striped");
    reveal_strlit("woods");
    reveal_strlit("pale");
    let k = wolf_key_of(variant);
    assert(k[0] != 'a' || variant == 0);
    assert(k[0] != 'b' || variant == 1);
    assert(k[0] != 'c' || variant == 2);
    assert(k[0] != 'r' || variant == 4);
    assert(k[1] != 'n' || variant == 5);
    assert(k[1] != 'p' || variant == 6);
    assert(k[1] != 't' || variant == 7);
}

/// A stored cat variant reads back as the same variant.
pub proof fn lemma_cat_variant_round_trip(variant: u8)
    requires
        variant <= 10,
    ensures
        cat_variant_of(cat_name_of(variant)) == variant,
{
    lemma_strip_namespace(cat_key_of(variant));
    reveal_strlit("all_black");
    reveal_strlit("black");
    reveal_strlit("british_shorthair");
    reveal_strlit("calico");
    reveal_strlit("jellie");
    reveal_strlit("persian");
    reveal_strlit("ragdoll");
    reveal_strlit("red");
    reveal_strlit("siamese");
    reveal_strlit("white");
    reveal_strlit("tabby");
    let k = cat_key_of(variant);
    assert(k[0] != 'a' || variant == 0);
    assert(k[0] != 'b' || k[1] != 'l' || variant == 1);
    assert(k[0] != 'b' || k[1] != 'r' || variant == 2);
    assert(k[0] != 'c' || variant == 3);
    assert(k[0] != 'j' || variant == 4);
    assert(k[0] != 'p' || variant == 5);
    assert(k[1] != 'a' || k[0] != 'r' || variant == 6);
    assert(k[0] != 'r' || variant == 6 || variant == 7);
    assert(k[0] != 's' || variant == 8);
    assert(k[0] != 'w' || variant == 10);
}

/// A wolf: its variant (3, pale, by default), collar and pet flags.
pub struct WolfEntity {
    pub mob: MobGoals,
    pub variant: u8,
    pub pet: PetState,
    pub is_begging: bool,
}

impl WolfEntity {
    pub fn new() -> (r: WolfEntity)
        ensures
            r.mob.goals@ == wolf_goals(),
            r.mob.targets@ == wolf_targets(),
            r.variant == 3,
            r.pet == wild_pet(),
            !r.is_begging,
    {
        let goals = goal_list(
            &[
                GoalEntry { priority: 1, goal: GoalKind::Swim },
                GoalEntry { priority: 4, goal: GoalKind::EscapeDanger { speed: 150 } },
                GoalEntry {
                    priority: 5,
                    goal: GoalKind::MeleeAttack { speed: 100, pause_when_idle: true },
                },
                GoalEntry {
                    priority: 6,
                    goal: GoalKind::FollowOwner { speed: 100, min_distance: 2, max_distance: 10 },
                },
                GoalEntry { priority: 7, goal: GoalKind::Breed { speed: 100 } },
                GoalEntry { priority: 8, goal: GoalKind::FollowParent { speed: 110 } },
                GoalEntry { priority: 9, goal: GoalKind::BegForBone { range: 8 } },
                GoalEntry { priority: 10, goal: GoalKind::LookAt { target: TargetType::Player, range: 8 } },
                GoalEntry { priority: 10, goal: GoalKind::RandomLookAround },
                GoalEntry { priority: 12, goal: GoalKind::WanderAround { speed: 100 } },
            ],
        );
        let targets = goal_list(
            &[
                GoalEntry { priority: 1, goal: GoalKind::OwnerHurtByTarget },
                GoalEntry { priority: 2, goal: GoalKind::OwnerHurtTarget },
                GoalEntry { priority: 3, goal: GoalKind::Revenge { call_for_help: true } },
                GoalEntry {
                    priority: 7,
                    goal: GoalKind::ActiveTarget { target: TargetType::Skeleton, must_see: false },
                },
                GoalEntry {
                    priority: 7,
                    goal: GoalKind::ActiveTarget { target: TargetType::WitherSkeleton, must_see: false },
                },
                GoalEntry {
                    priority: 7,
                    goal: GoalKind::ActiveTarget { target: TargetType::Stray, must_see: false },
                },
                GoalEntry {
                    priority: 7,
                    goal: GoalKind::ActiveTarget { target: TargetType::Bogged, must_see: false },
                },
            ],
        );
        let r = WolfEntity {
            mob: MobGoals { goals, targets },
            variant: 3,
            pet: PetState { tamed: false, sitting: false, collar_color: DEFAULT_COLLAR_COLOR, owner: None },
            is_begging: false,
        };
        assert(r.mob.goals@ =~= wolf_goals());
        assert(r.mob.targets@ =~= wolf_targets());
        r
    }

    /// The tameable-flags byte of the wolf.
    pub fn tameable_flags(&self) -> (r: u8)
        ensures
            r == tameable_flags_of(self.pet.sitting, self.pet.tamed),
    {
        tameable_flags(self.pet.sitting, self.pet.tamed)
    }

    pub fn collar_color(&self) -> (r: u8)
        ensures
            r == self.pet.collar_color,
    {
        self.pet.collar_color
    }

    pub fn set_collar_color(&mut self, color: u8)
        ensures
            final(self).pet == (PetState { collar_color: color, ..old(self).pet }),
            final(self).variant == old(self).variant,
            final(self).is_begging == old(self).is_begging,
    {
        self.pet.collar_color = color;
    }

    pub fn is_tamed(&self) -> (r: bool)
        ensures
            r == self.pet.tamed,
    {
        self.pet.tamed
    }

    pub fn set_tamed(&mut self, tamed: bool)
        ensures
            final(self).pet == (PetState { tamed, ..old(self).pet }),
            final(self).variant == old(self).variant,
            final(self).is_begging == old(self).is_begging,
    {
        self.pet.tamed = tamed;
    }

    pub fn is_sitting(&self) -> (r: bool)
        ensures
            r == self.pet.sitting,
    {
        self.pet.sitting
    }

    pub fn set_sitting(&mut self, sitting: bool)
        ensures
            final(self).pet == (PetState { sitting, ..old(self).pet }),
            final(self).variant == old(self).variant,
            final(self).is_begging == old(self).is_begging,
    {
        self.pet.sitting = sitting;
    }

    pub fn is_begging(&self) -> (r: bool)
        ensures
            r == self.is_begging,
    {
        self.is_begging
    }

    pub fn set_begging(&mut self, begging: bool)
        ensures
            final(self).is_begging == begging,
            final(self).pet == old(self).pet,
            final(self).variant == old(self).variant,
    {
        self.is_begging = begging;
    }

    pub fn get_owner_uuid(&self) -> (r: Option<u128>)
        ensures
            r == self.pet.owner,
    {
        self.pet.owner
    }

    pub fn set_owner(&mut self, owner: Option<u128>)
        ensures
            final(self).pet == (PetState { owner, ..old(self).pet }),
            final(self).variant == old(self).variant,
            final(self).is_begging == old(self).is_begging,
    {
        self.pet.owner = owner;
    }

    /// The name the variant is stored under.
    pub fn variant_name(&self) -> (r: String)
        ensures
            r@ == wolf_name_of(self.variant),
    {
        let key: &str = match self.variant {
            0 => "ashen",
            1 => "black",
            2 => "chestnut",
            4 => "rusty",
            5 => "snowy",
            6 => "spotted",
            7 => "striped",
            8 => "woods",
            _ => "pale",
        };
        let full = concat_chars(&str_chars("minecraft:"), &str_chars(key));
        string_from_chars(&full)
    }

    /// Reads the stored wolf: each value that is present replaces the
    /// current one (`variant` by name, the collar byte as unsigned).
    pub fn read_nbt(
        &mut self,
        variant: Option<&str>,
        collar: Option<i8>,
        sitting: Option<bool>,
        tame: Option<bool>,
        owner: Option<u128>,
    )
        ensures
            final(self).variant == (match variant {
                Some(n) => wolf_variant_of(n@),
                None => old(self).variant as int,
            }),
            final(self).pet.collar_color == (match collar {
                Some(c) => c as u8,
                None => old(self).pet.collar_color,
            }),
            final(self).pet.sitting == (match sitting {
                Some(b) => b,
                None => old(self).pet.sitting,
            }),
            final(self).pet.tamed == (match tame {
                Some(b) => b,
                None => old(self).pet.tamed,
            }),
            final(self).pet.owner == (match owner {
                Some(o) => Some(o),
                None => old(self).pet.owner,
            }),
            final(self).is_begging == old(self).is_begging,
    {
        if let Some(n) = variant {
            self.variant = wolf_variant(n);
        }
        if let Some(c) = collar {
            self.pet.collar_color = c as u8;
        }
        if let Some(b) = sitting {
            self.pet.sitting = b;
        }
        if let Some(b) = tame {
            self.pet.tamed = b;
        }
        if let Some(o) = owner {
            self.pet.owner = Some(o);
        }
    }

    /// Sets the variant from a (possibly namespaced) name.
    pub fn set_variant_name(&mut self, name: &str)
        ensures
            final(self).variant == wolf_variant_of(name@),
            final(self).pet == old(self).pet,
    {
        self.variant = wolf_variant(name);
    }

    /// Whether the wolf may attack a target on its owner's behalf: never
    /// the owner itself, a creeper or a ghast.
    pub fn can_attack_with_owner(target_id: i32, owner_id: i32, target_creeper_or_ghast: bool) -> (r:
        bool)
        ensures
            r == (target_id != owner_id && !target_creeper_or_ghast),
    {
        target_id != owner_id && !target_creeper_or_ghast
    }

    /// A player uses an item on the wolf; the decision is applied to its
    /// pet state and returned.
    pub fn mob_interact(
        &mut self,
        player: u128,
        dye: Option<u8>,
        is_wolf_food: bool,
        is_bone: bool,
        hurt: bool,
        roll: u32,
    ) -> (r: TameInteraction)
        ensures
            r == wolf_interaction_of(
                old(self).pet.tamed,
                old(self).pet.owner == Some(player),
                dye,
                old(self).pet.collar_color,
                is_wolf_food,
                is_bone,
                hurt,
                old(self).pet.sitting,
                roll,
            ),
            final(self).pet == apply_interaction_of(old(self).pet, r, player),
            final(self).variant == old(self).variant,
    {
        let is_owner = match self.pet.owner {
            Some(o) => o == player,
            None => false,
        };
        let r = wolf_interaction(
            self.pet.tamed,
            is_owner,
            dye,
            self.pet.collar_color,
            is_wolf_food,
            is_bone,
            hurt,
            self.pet.sitting,
            roll,
        );
        self.pet = apply_interaction(self.pet, r, player);
        r
    }
}

/// A cat: its variant (9, tabby, by default), collar and pet flags.
pub struct CatEntity {
    pub mob: MobGoals,
    pub variant: u8,
    pub pet: PetState,
    pub is_lying: bool,
}

impl CatEntity {
    pub fn new() -> (r: CatEntity)
        ensures
            r.mob.goals@ == cat_goals(),
            r.mob.targets@ == cat_targets(),
            r.variant == 9,
            r.pet == wild_pet(),
            !r.is_lying,
    {
        let goals = goal_list(
            &[
                GoalEntry { priority: 1, goal: GoalKind::Swim },
                GoalEntry { priority: 1, goal: GoalKind::EscapeDanger { speed: 150 } },
                GoalEntry {
                    priority: 4,
                    goal: GoalKind::Avoid {
                        target: TargetType::Player,
                        distance: 16,
                        slow_speed: 80,
                        fast_speed: 133,
                    },
                },
                GoalEntry { priority: 4, goal: GoalKind::TemptWithFish { speed: 60 } },
                GoalEntry { priority: 5, goal: GoalKind::Breed { speed: 80 } },
                GoalEntry {
                    priority: 6,
                    goal: GoalKind::FollowOwner { speed: 100, min_distance: 5, max_distance: 10 },
                },
                GoalEntry { priority: 9, goal: GoalKind::FollowParent { speed: 80 } },
                GoalEntry { priority: 11, goal: GoalKind::WanderAround { speed: 80 } },
                GoalEntry {
                    priority: 12,
                    goal: GoalKind::LookAt { target: TargetType::Player, range: 10 },
                },
                GoalEntry { priority: 12, goal: GoalKind::RandomLookAround },
            ],
        );
        let targets = goal_list(
            &[
                GoalEntry {
                    priority: 1,
                    goal: GoalKind::ActiveTarget { target: TargetType::Rabbit, must_see: false },
                },
                GoalEntry {
                    priority: 1,
                    goal: GoalKind::ActiveTarget { target: TargetType::Turtle, must_see: false },
                },
            ],
        );
        let r = CatEntity {
            mob: MobGoals { goals, targets },
            variant: 9,
            pet: PetState { tamed: false, sitting: false, collar_color: DEFAULT_COLLAR_COLOR, owner: None },
            is_lying: false,
        };
        assert(r.mob.goals@ =~= cat_goals());
        assert(r.mob.targets@ =~= cat_targets());
        r
    }

    /// The tameable-flags byte of the cat.
    pub fn tameable_flags(&self) -> (r: u8)
        ensures
            r == tameable_flags_of(self.pet.sitting, self.pet.tamed),
    {
        tameable_flags(self.pet.sitting, self.pet.tamed)
    }

    pub fn collar_color(&self) -> (r: u8)
        ensures
            r == self.pet.collar_color,
    {
        self.pet.collar_color
    }

    pub fn set_collar_color(&mut self, color: u8)
        ensures
            final(self).pet == (PetState { collar_color: color, ..old(self).pet }),
            final(self).variant == old(self).variant,
            final(self).is_lying == old(self).is_lying,
    {
        self.pet.collar_color = color;
    }

    pub fn is_tamed(&self) -> (r: bool)
        ensures
            r == self.pet.tamed,
    {
        self.pet.tamed
    }

    pub fn set_tamed(&mut self, tamed: bool)
        ensures
            final(self).pet == (PetState { tamed, ..old(self).pet }),
            final(self).variant == old(self).variant,
            final(self).is_lying == old(self).is_lying,
    {
        self.pet.tamed = tamed;
    }

    pub fn is_sitting(&self) -> (r: bool)
        ensures
            r == self.pet.sitting,
    {
        self.pet.sitting
    }

    pub fn set_sitting(&mut self, sitting: bool)
        ensures
            final(self).pet == (PetState { sitting, ..old(self).pet }),
            final(self).variant == old(self).variant,
            final(self).is_lying == old(self).is_lying,
    {
        self.pet.sitting = sitting;
    }

    pub fn is_lying(&self) -> (r: bool)
        ensures
            r == self.is_lying,
    {
        self.is_lying
    }

    pub fn set_lying(&mut self, lying: bool)
        ensures
            final(self).is_lying == lying,
            final(self).pet == old(self).pet,
            final(self).variant == old(self).variant,
    {
        self.is_lying = lying;
    }

    pub fn get_owner_uuid(&self) -> (r: Option<u128>)
        ensures
            r == self.pet.owner,
    {
        self.pet.owner
    }

    pub fn set_owner(&mut self, owner: Option<u128>)
        ensures
            final(self).pet == (PetState { owner, ..old(self).pet }),
            final(self).variant == old(self).variant,
            final(self).is_lying == old(self).is_lying,
    {
        self.pet.owner = owner;
    }

    /// The name the variant is stored under.
    pub fn variant_name(&self) -> (r: String)
        ensures
            r@ == cat_name_of(self.variant),
    {
        let key: &str = match self.variant {
            0 => "all_black",
            1 => "black",
            2 => "british_shorthair",
            3 => "calico",
            4 => "jellie",
            5 => "persian",
            6 => "ragdoll",
            7 => "red",
            8 => "siamese",
            10 => "white",
            _ => "tabby",
        };
        let full = concat_chars(&str_chars("minecraft:"), &str_chars(key));
        string_from_chars(&full)
    }

    /// Reads the stored cat: each value that is present replaces the
    /// current one (`variant` by name, the collar byte as unsigned).
    pub fn read_nbt(
        &mut self,
        variant: Option<&str>,
        collar: Option<i8>,
        sitting: Option<bool>,
        tame: Option<bool>,
        owner: Option<u128>,
    )
        ensures
            final(self).variant == (match variant {
                Some(n) => cat_variant_of(n@),
                None => old(self).variant as int,
            }),
            final(self).pet.collar_color == (match collar {
                Some(c) => c as u8,
                None => old(self).pet.collar_color,
            }),
            final(self).pet.sitting == (match sitting {
                Some(b) => b,
                None => old(self).pet.sitting,
            }),
            final(self).pet.tamed == (match tame {
                Some(b) => b,
                None => old(self).pet.tamed,
            }),
            final(self).pet.owner == (match owner {
                Some(o) => Some(o),
                None => old(self).pet.owner,
            }),
            final(self).is_lying == old(self).is_lying,
    {
        if let Some(n) = variant {
            self.variant = cat_variant(n);
        }
        if let Some(c) = collar {
            self.pet.collar_color = c as u8;
        }
        if let Some(b) = sitting {
            self.pet.sitting = b;
        }
        if let Some(b) = tame {
            self.pet.tamed = b;
        }
        if let Some(o) = owner {
            self.pet.owner = Some(o);
        }
    }

    /// Sets the variant from a (possibly namespaced) name.
    pub fn set_variant_name(&mut self, name: &str)
        ensures
            final(self).variant == cat_variant_of(name@),
            final(self).pet == old(self).pet,
    {
        self.variant = cat_variant(name);
    }

    /// A player uses an item on the cat; the decision is applied to its pet
    /// state and returned.
    pub fn mob_interact(
        &mut self,
        player: u128,
        dye: Option<u8>,
        is_fish: bool,
        hurt: bool,
        roll: u32,
    ) -> (r: TameInteraction)
        ensures
            r == cat_interaction_of(
                old(self).pet.tamed,
                old(self).pet.owner == Some(player),
                dye,
                old(self).pet.collar_color,
                is_fish,
                hurt,
                old(self).pet.sitting,
                roll,
            ),
            final(self).pet == apply_interaction_of(old(self).pet, r, player),
            final(self).variant == old(self).variant,
    {
        let is_owner = match self.pet.owner {
            Some(o) => o == player,
            None => false,
        };
        let r = cat_interaction(
            self.pet.tamed,
            is_owner,
            dye,
            self.pet.collar_color,
            is_fish,
            hurt,
            self.pet.sitting,
            roll,
        );
        self.pet = apply_interaction(self.pet, r, player);
        r
    }
}

/// The pet state after `player`'s interaction, as `apply_interaction`
/// computes it.
pub open spec fn apply_interaction_of(state: PetState, interaction: TameInteraction, player: u128) -> PetState {
    match interaction {
        TameInteraction::DyeCollar { color, .. } => PetState { collar_color: color, ..state },
        TameInteraction::Sit { sitting } => PetState { sitting, ..state },
        TameInteraction::Tame { success } => if success {
            PetState { tamed: true, sitting: true, owner: Some(player), ..state }
        } else {
            state
        },
        _ => state,
    }
}

} // verus!
