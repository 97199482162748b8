//! The player's food bar: what eating and commands do to the food level,
//! and the decisions of one hunger tick.
//!
//! Saturation, exhaustion and health are floating-point quantities; the
//! tick decides over the facts about them that vanilla compares (whether
//! exhaustion passed its cost, whether saturation is positive, and so on),
//! and reports which float updates to apply.
use vstd::prelude::*;

verus! {

/// The world difficulty.
#[derive(Clone, Copy, Debug, PartialEq, Eq, Structural)]
pub enum Difficulty {
    Peaceful,
    Easy,
    Normal,
    Hard,
}

/// The largest food level.
pub const MAX_FOOD: u8 = 20;

/// `min(a, b)` over integers.
pub open spec fn min_int(a: int, b: int) -> int {
    if a <= b {
        a
    } else {
        b
    }
}

/// The food level after eating `food` points: the bar never passes 20,
/// however large a datapack makes `food`.
pub fn food_level_after_eating(current: u8, food: u8) -> (r: u8)
    ensures
        r == min_int(current + food, MAX_FOOD as int),
{
    let sum = current.saturating_add(food);
    if sum < MAX_FOOD {
        sum
    } else {
        MAX_FOOD
    }
}

/// The food level after a command adds `hunger` points.
pub fn food_level_after_adding(current: u8, hunger: u8) -> (r: u8)
    ensures
        r == min_int(current + hunger, MAX_FOOD as int),
{
    food_level_after_eating(current, hunger)
}

/// The food level that a command setting it to `level` leaves.
pub fn clamp_food_level(level: u8) -> (r: u8)
    ensures
        r == min_int(level as int, MAX_FOOD as int),
{
    if level < MAX_FOOD {
        level
    } else {
        MAX_FOOD
    }
}

/// The food level read from the `foodLevel` tag: a missing or out-of-byte
/// value means a full bar, and the bar never passes 20.
pub fn food_level_from_nbt(stored: Option<i32>) -> (r: u8)
    ensures
        r == (match stored {
            Some(v) => if 0 <= v <= 255 {
                min_int(v as int, MAX_FOOD as int)
            } else {
                MAX_FOOD as int
            },
            None => MAX_FOOD as int,
        }),
{
    match stored {
        Some(v) => {
            if 0 <= v && v <= 255 {
                clamp_food_level(v as u8)
            } else {
                MAX_FOOD
            }
        },
        None => MAX_FOOD,
    }
}

/// The hunger tick timer read from the `foodTickTimer` tag: a missing or
/// negative value means 0.
pub fn food_tick_timer_from_nbt(stored: Option<i32>) -> (r: u32)
    ensures
        r == (match stored {
            Some(v) => if v >= 0 {
                v as int
            } else {
                0
            },
            None => 0,
        }),
{
    match stored {
        Some(v) => {
            if v >= 0 {
                v as u32
            } else {
                0
            }
        },
        None => 0,
    }
}

/// What a hunger tick reads: the food level and tick timer, and the facts
/// about the player's floats and the world that vanilla's tick compares.
#[derive(Clone, Copy, Debug, PartialEq, Eq, Structural)]
pub struct HungerFacts {
    pub level: u8,
    pub tick_timer: u32,
    /// Exhaustion is above its cost of 4.
    pub exhaustion_above_cost: bool,
    /// Saturation is above 0.
    pub saturation_positive: bool,
    /// Saturation is above 1, so that it stays positive after losing one.
    pub saturation_above_one: bool,
    pub difficulty: Difficulty,
    /// The `naturalRegeneration` game rule.
    pub natural_regeneration: bool,
    /// The player is hurt and may heal from food.
    pub can_heal: bool,
    pub health_above_ten: bool,
    pub health_above_one: bool,
}

/// How a hunger tick heals the player.
#[derive(Clone, Copy, Debug, PartialEq, Eq, Structural)]
pub enum FoodHeal {
    Nothing,
    /// Up to 6 saturation is turned into exhaustion, healing a sixth of it.
    FromSaturation,
    /// One health point, for 6 exhaustion.
    FromFood,
}

/// What a hunger tick does.
#[derive(Clone, Copy, Debug, PartialEq, Eq, Structural)]
pub struct HungerTick {
    pub level: u8,
    pub tick_timer: u32,
    /// Exhaustion loses its cost of 4.
    pub spend_exhaustion: bool,
    /// Saturation loses one point (not going below zero).
    pub drain_saturation: bool,
    pub heal: FoodHeal,
    /// The player takes one point of starvation damage.
    pub starve: bool,
    /// The new food values are sent to the player.
    pub needs_sync: bool,
}

/// Whether a starving player is hurt at this difficulty.
pub open spec fn starves(f: HungerFacts) -> bool {
    match f.difficulty {
        Difficulty::Peaceful => false,
        Difficulty::Easy => f.health_above_ten,
        Difficulty::Normal => f.health_above_one,
        Difficulty::Hard => true,
    }
}

/// What one hunger tick gives for the facts `f`.  Spent exhaustion first
/// drains saturation, or, once saturation is gone, a food point (never in
/// peaceful).  Then a full bar with saturation heals every 10 ticks, a bar
/// of 18 or more every 80, and an empty bar starves every 80; any other bar
/// resets the timer.
pub open spec fn hunger_tick_outcome(f: HungerFacts, r: HungerTick) -> bool {
    &&& r.level <= f.level
    &&& r.starve ==> r.level == 0
    &&& r.heal != FoodHeal::Nothing ==> r.level >= 18
    &&& r.spend_exhaustion == f.exhaustion_above_cost
    &&& r.drain_saturation == (f.exhaustion_above_cost && f.saturation_positive)
    &&& r.level == (if f.exhaustion_above_cost && !f.saturation_positive && f.difficulty
        != Difficulty::Peaceful && f.level > 0 {
        f.level - 1
    } else {
        f.level as int
    })
    &&& ({
        let saturated = if f.exhaustion_above_cost && f.saturation_positive {
            f.saturation_above_one
        } else {
            f.saturation_positive
        };
        let t = f.tick_timer + 1;
        if f.natural_regeneration && saturated && f.can_heal && r.level >= 20 {
            &&& r.tick_timer == (if t >= 10 {
                0
            } else {
                t
            })
            &&& r.heal == (if t >= 10 {
                FoodHeal::FromSaturation
            } else {
                FoodHeal::Nothing
            })
            &&& !r.starve
            &&& r.needs_sync == (f.exhaustion_above_cost || t >= 10)
        } else if f.natural_regeneration && r.level >= 18 && f.can_heal {
            &&& r.tick_timer == (if t >= 80 {
                0
            } else {
                t
            })
            &&& r.heal == (if t >= 80 {
                FoodHeal::FromFood
            } else {
                FoodHeal::Nothing
            })
            &&& !r.starve
            &&& r.needs_sync == (f.exhaustion_above_cost || t >= 80)
        } else if r.level == 0 {
            &&& r.tick_timer == (if t >= 80 {
                0
            } else {
                t
            })
            &&& r.heal == FoodHeal::Nothing
            &&& r.starve == (t >= 80 && starves(f))
            &&& r.needs_sync == f.exhaustion_above_cost
        } else {
            &&& r.tick_timer == 0
            &&& r.heal == FoodHeal::Nothing
            &&& !r.starve
            &&& r.needs_sync == f.exhaustion_above_cost
        }
    })
}

/// Starvation by difficulty: a tick never starves in peaceful, starves
/// only a player above 10 health on easy and above 1 health on normal;
/// and an empty bar whose timer reaches 80 ticks, with no healing under
/// way, does starve a player on hard, one above 10 health on easy and one
/// above 1 health on normal.  Only an empty bar starves.
pub proof fn lemma_starvation_by_difficulty(f: HungerFacts, r: HungerTick)
    requires
        hunger_tick_outcome(f, r),
    ensures
        f.difficulty == Difficulty::Peaceful ==> !r.starve,
        f.difficulty == Difficulty::Easy && !f.health_above_ten ==> !r.starve,
        f.difficulty == Difficulty::Normal && !f.health_above_one ==> !r.starve,
        r.starve ==> r.level == 0,
        f.level == 0 && f.tick_timer + 1 >= 80 && !(f.natural_regeneration && f.can_heal) ==> r.starve == (
        f.difficulty == Difficulty::Hard || (f.difficulty == Difficulty::Easy && f.health_above_ten) || (
        f.difficulty == Difficulty::Normal && f.health_above_one)),
{
}

/// Food, saturation and healing: peaceful never costs food; a tick costs
/// at most one food point, and only when spent exhaustion finds no
/// saturation; saturation drains only for spent exhaustion; healing needs
/// the natural regeneration rule, a hurt player, and 20 food (from
/// saturation, every 10 ticks) or 18 food (from food, every 80 ticks).
pub proof fn lemma_food_and_healing(f: HungerFacts, r: HungerTick)
    requires
        hunger_tick_outcome(f, r),
    ensures
        f.difficulty == Difficulty::Peaceful ==> r.level == f.level,
        f.level - 1 <= r.level <= f.level,
        r.level < f.level ==> f.exhaustion_above_cost && !f.saturation_positive,
        r.drain_saturation ==> f.exhaustion_above_cost && f.saturation_positive,
        !f.exhaustion_above_cost ==> r.level == f.level && !r.drain_saturation && !r.spend_exhaustion,
        r.heal != FoodHeal::Nothing ==> f.natural_regeneration && f.can_heal && !r.starve,
        r.heal == FoodHeal::FromSaturation ==> r.level >= 20 && f.tick_timer + 1 >= 10 && r.tick_timer == 0,
        r.heal == FoodHeal::FromFood ==> r.level >= 18 && f.tick_timer + 1 >= 80 && r.tick_timer == 0,
        r.starve ==> f.tick_timer + 1 >= 80 && r.tick_timer == 0,
{
}

/// One hunger tick, as `hunger_tick_outcome` says.
pub fn hunger_tick(f: HungerFacts) -> (r: HungerTick)
    requires
        f.tick_timer < u32::MAX,
    ensures
        hunger_tick_outcome(f, r),
{
    let mut level = f.level;
    let mut saturated = f.saturation_positive;
    let mut needs_sync = false;
    let mut drain = false;
    if f.exhaustion_above_cost {
        if f.saturation_positive {
            drain = true;
            saturated = f.saturation_above_one;
        } else if f.difficulty != Difficulty::Peaceful {
            level = level.saturating_sub(1);
        }
        needs_sync = true;
    }
    let mut timer = f.tick_timer;
    let mut heal = FoodHeal::Nothing;
    let mut starve = false;
    if f.natural_regeneration && saturated && f.can_heal && level >= 20 {
        timer = timer + 1;
        if timer >= 10 {
            heal = FoodHeal::FromSaturation;
            timer = 0;
            needs_sync = true;
        }
    } else if f.natural_regeneration && level >= 18 && f.can_heal {
        timer = timer + 1;
        if timer >= 80 {
            heal = FoodHeal::FromFood;
            timer = 0;
            needs_sync = true;
        }
    } else if level == 0 {
        timer = timer + 1;
        if timer >= 80 {
            timer = 0;
            starve = match f.difficulty {
                Difficulty::Peaceful => false,
                Difficulty::Easy => f.health_above_ten,
                Difficulty::Normal => f.health_above_one,
                Difficulty::Hard => true,
            };
        }
    } else {
        timer = 0;
    }
    HungerTick {
        level,
        tick_timer: timer,
        spend_exhaustion: f.exhaustion_above_cost,
        drain_saturation: drain,
        heal,
        starve,
        needs_sync,
    }
}

} // verus!
