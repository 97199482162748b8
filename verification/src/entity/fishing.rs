//! The fishing bobber: its bite and wait countdowns, what hooks it, whether
//! it floats in open water, and what reeling it in costs the rod.
use vstd::prelude::*;

use crate::random::random_i32;

verus! {

/// Vanilla's `FishingHook#retrieve` damage table: a hooked item entity
/// costs three durability, any other hooked entity five, a catch one, and
/// a bobber stuck on the ground two, which overrides the other outcomes.
pub open spec fn retrieval_damage_of(hooked: bool, hooked_item_entity: bool, has_catch: bool, on_ground: bool) -> int {
    if on_ground {
        2
    } else if hooked {
        if hooked_item_entity {
            3
        } else {
            5
        }
    } else if has_catch {
        1
    } else {
        0
    }
}

/// The durability a rod loses when the bobber is reeled in.
pub fn retrieval_damage(hooked: bool, hooked_item_entity: bool, has_catch: bool, on_ground: bool) -> (r: i32)
    ensures
        r == retrieval_damage_of(hooked, hooked_item_entity, has_catch, on_ground),
{
    let mut damage: i32 = if hooked {
        if hooked_item_entity {
            3
        } else {
            5
        }
    } else if has_catch {
        1
    } else {
        0
    };
    if on_ground {
        damage = 2;
    }
    damage
}

/// `|x|` over integers.
pub open spec fn abs_int(x: int) -> int {
    if x < 0 {
        -x
    } else {
        x
    }
}

/// The ticks a bobber waits for a bite, from a drawn `i32`: between 100
/// and 699.
pub open spec fn wait_from_roll(roll: i32) -> int {
    abs_int(roll as int) % 600 + 100
}

/// The wait countdown that a drawn `i32` gives.  The absolute value is
/// taken in a wider type, so that `i32::MIN` gives its mathematical value.
pub fn wait_countdown_from_roll(roll: i32) -> (r: i32)
    ensures
        r == wait_from_roll(roll),
        100 <= r < 700,
{
    let wide: i64 = roll as i64;
    let a: u32 = if wide < 0 {
        (-wide) as u32
    } else {
        wide as u32
    };
    assert(a == abs_int(roll as int));
    let m: u32 = a % 600;
    (m as i32) + 100
}

/// What the world reports of the entity the bobber had hooked.
#[derive(Clone, Copy, Debug, PartialEq, Eq, Structural)]
pub enum HookedLookup {
    /// No entity with that id is in the world.
    Missing,
    /// The entity was removed.
    Removed,
    /// The entity is there.
    Present,
}

/// How a bobber tick begins.
#[derive(Clone, Copy, Debug, PartialEq, Eq, Structural)]
pub enum BobberTickStart {
    /// The bobber is stuck in a block and does nothing.
    Stuck,
    /// The bobber rides with its hooked entity.
    FollowHooked,
    /// The bobber moves by its own velocity.
    Move,
}

/// What the water part of a bobber tick did.
#[derive(Clone, Copy, Debug, PartialEq, Eq, Structural)]
pub enum BobberWaterEvent {
    /// A fish is nibbling; `bubbles` every fifth tick.
    Nibble { bubbles: bool },
    /// Still waiting for a bite.
    Waiting,
    /// A fish bites: a splash is played.
    Bite,
}

/// An entity whose box the bobber's path crosses.
#[derive(Clone, Copy, Debug, PartialEq, Eq, Structural)]
pub struct HookCandidate {
    pub entity_id: i32,
    pub is_projectile: bool,
    /// Its box, grown by 0.3, meets the bobber's search box.
    pub touches: bool,
}

/// Whether `c` may be hooked by the bobber `self_id` of `owner_id`.
pub open spec fn hookable(c: HookCandidate, owner_id: i32, self_id: i32) -> bool {
    c.entity_id != owner_id && c.entity_id != self_id && !c.is_projectile && c.touches
}

/// The first hookable candidate.
pub open spec fn first_hookable(s: Seq<HookCandidate>, owner_id: i32, self_id: i32) -> Option<int>
    decreases s.len(),
{
    if s.len() == 0 {
        None
    } else {
        match first_hookable(s.drop_last(), owner_id, self_id) {
            Some(i) => Some(i),
            None => if hookable(s.last(), owner_id, self_id) {
                Some(s.len() - 1)
            } else {
                None
            },
        }
    }
}

/// The kind of one block of the 5×5×4 neighbourhood of a bobber.
#[derive(Clone, Copy, Debug, PartialEq, Eq, Structural)]
pub enum WaterCell {
    /// Air or a lily pad.
    AboveWater,
    /// A water source that is not solid.
    InsideWater,
    /// Anything else.
    Blocked,
}

/// Vanilla's open-water test over the 100 blocks from one below to two
/// above the bobber, layer by layer (25 per layer): no block is blocked,
/// each layer is uniform, the lowest layer is water, and no water layer
/// lies above an air layer.
pub open spec fn open_water(cells: Seq<WaterCell>) -> bool {
    &&& forall|i: int| 0 <= i < 100 ==> cells[i] != WaterCell::Blocked
    &&& forall|y: int, k: int| 0 <= y < 4 && 0 <= k < 25 ==> #[trigger] cells[25 * y + k] == cells[25 * y]
    &&& cells[0] == WaterCell::InsideWater
    &&& forall|y: int| 1 <= y < 4 ==> (#[trigger] cells[25 * y] == WaterCell::InsideWater ==> cells[25 * (y - 1)] == WaterCell::InsideWater)
}

/// Whether the 100 neighbourhood blocks make open water.
pub fn calculate_open_water(cells: &Vec<WaterCell>) -> (r: bool)
    requires
        cells.len() == 100,
    ensures
        r == open_water(cells@),
{
    let mut y: usize = 0;
    while y < 4
        invariant
            y <= 4,
            cells.len() == 100,
            forall|i: int| 0 <= i < 25 * y ==> cells@[i] != WaterCell::Blocked,
            forall|yy: int, k: int| 0 <= yy < y && 0 <= k < 25 ==> #[trigger] cells@[25 * yy + k] == cells@[25 * yy],
            y > 0 ==> cells@[0] == WaterCell::InsideWater,
            forall|yy: int| 1 <= yy < y ==> (#[trigger] cells@[25 * yy] == WaterCell::InsideWater ==> cells@[25 * (yy - 1)] == WaterCell::InsideWater),
        decreases 4 - y,
    {
        let base = 25 * y;
        let layer = cells[base];
        let mut k: usize = 0;
        while k < 25
            invariant
                k <= 25,
                y < 4,
                base == 25 * y,
                cells.len() == 100,
                layer == cells@[base as int],
                forall|i: int| 0 <= i < 25 * y + k ==> cells@[i] != WaterCell::Blocked,
                forall|kk: int| 0 <= kk < k ==> #[trigger] cells@[base + kk] == layer,
            decreases 25 - k,
        {
            let c = cells[base + k];
            if c == WaterCell::Blocked {
                return false;
            }
            if c != layer {
                assert(cells@[25 * (y as int) + (k as int)] != cells@[25 * (y as int)]);
                return false;
            }
            k = k + 1;
        }
        if y == 0 && layer == WaterCell::AboveWater {
            return false;
        }
        if y > 0 && cells[base - 25] == WaterCell::AboveWater && layer == WaterCell::InsideWater {
            assert(cells@[25 * (y as int)] == WaterCell::InsideWater);
            assert(cells@[25 * ((y as int) - 1)] == WaterCell::AboveWater);
            return false;
        }
        assert forall|yy: int, kk: int| 0 <= yy < y + 1 && 0 <= kk < 25 implies #[trigger] cells@[25 * yy + kk] == cells@[25 * yy] by {
            if yy == y {
                assert(cells@[base + kk] == layer);
            }
        }
        y = y + 1;
    }
    true
}

/// A fishing bobber: the owner that cast it, the entity it hooked (0 for
/// none), and its bite and wait countdowns.
#[derive(Clone, Copy, Debug, PartialEq, Eq, Structural)]
pub struct FishingBobberEntity {
    pub entity_id: i32,
    pub owner_id: i32,
    pub hooked_entity_id: i32,
    pub in_ground: bool,
    pub has_hit: bool,
    pub wait_countdown: i32,
    pub bite_countdown: i32,
    pub open_water: bool,
}

/// The ticks a nibble lasts.
pub const BITE_TICKS: i32 = 40;

impl FishingBobberEntity {
    /// A freshly cast bobber, waiting `wait_from_roll(roll)` ticks.
    pub fn new_with_roll(entity_id: i32, owner_id: i32, roll: i32) -> (r: FishingBobberEntity)
        ensures
            r == (FishingBobberEntity {
                entity_id,
                owner_id,
                hooked_entity_id: 0,
                in_ground: false,
                has_hit: false,
                wait_countdown: wait_from_roll(roll) as i32,
                bite_countdown: 0,
                open_water: false,
            }),
    {
        FishingBobberEntity {
            entity_id,
            owner_id,
            hooked_entity_id: 0,
            in_ground: false,
            has_hit: false,
            wait_countdown: wait_countdown_from_roll(roll),
            bite_countdown: 0,
            open_water: false,
        }
    }

    /// A freshly cast bobber with a drawn wait of 100 to 699 ticks.
    pub fn new(entity_id: i32, owner_id: i32) -> (r: FishingBobberEntity)
        ensures
            r.entity_id == entity_id,
            r.owner_id == owner_id,
            r.hooked_entity_id == 0,
            !r.in_ground && !r.has_hit && !r.open_water,
            r.bite_countdown == 0,
            100 <= r.wait_countdown < 700,
    {
        let roll = random_i32();
        Self::new_with_roll(entity_id, owner_id, roll)
    }

    /// A projectile hit marks the bobber as having hit.
    pub fn on_hit(&mut self)
        ensures
            *final(self) == (FishingBobberEntity { has_hit: true, ..*old(self) }),
    {
        self.has_hit = true;
    }

    /// The start of a tick: a stuck bobber does nothing; a bobber whose
    /// hooked entity is still there rides with it; a hooked entity that is
    /// gone or removed is released.
    pub fn begin_tick(&mut self, hooked: HookedLookup) -> (r: BobberTickStart)
        ensures
            old(self).in_ground ==> r == BobberTickStart::Stuck && *final(self) == *old(self),
            !old(self).in_ground && old(self).hooked_entity_id != 0 && hooked
                == HookedLookup::Present ==> r == BobberTickStart::FollowHooked && *final(self)
                == *old(self),
            !old(self).in_ground && !(old(self).hooked_entity_id != 0 && hooked
                == HookedLookup::Present) ==> r == BobberTickStart::Move && *final(self) == (
            FishingBobberEntity { hooked_entity_id: 0, ..*old(self) }),
    {
        if self.in_ground {
            return BobberTickStart::Stuck;
        }
        if self.hooked_entity_id != 0 {
            match hooked {
                HookedLookup::Present => {
                    return BobberTickStart::FollowHooked;
                },
                _ => {
                    self.hooked_entity_id = 0;
                },
            }
        }
        BobberTickStart::Move
    }

    /// The countdowns of a bobber in water: a nibble runs down (bubbling on
    /// every fifth tick); else the wait runs down; when both are out a fish
    /// bites for 40 ticks and a new wait is drawn from `roll`.
    pub fn water_tick(&mut self, open_water: bool, roll: i32) -> (r: BobberWaterEvent)
        ensures
            final(self).open_water == open_water,
            final(self).entity_id == old(self).entity_id,
            final(self).owner_id == old(self).owner_id,
            final(self).hooked_entity_id == old(self).hooked_entity_id,
            final(self).in_ground == old(self).in_ground,
            final(self).has_hit == old(self).has_hit,
            old(self).bite_countdown > 0 ==> r == (BobberWaterEvent::Nibble {
                bubbles: old(self).bite_countdown % 5 == 0,
            }) && final(self).bite_countdown == old(self).bite_countdown - 1
                && final(self).wait_countdown == old(self).wait_countdown,
            old(self).bite_countdown <= 0 && old(self).wait_countdown > 0 ==> r
                == BobberWaterEvent::Waiting && final(self).bite_countdown
                == old(self).bite_countdown && final(self).wait_countdown
                == old(self).wait_countdown - 1,
            old(self).bite_countdown <= 0 && old(self).wait_countdown <= 0 ==> r
                == BobberWaterEvent::Bite && final(self).bite_countdown == BITE_TICKS
                && final(self).wait_countdown == wait_from_roll(roll),
    {
        self.open_water = open_water;
        let bite = self.bite_countdown;
        if bite > 0 {
            self.bite_countdown = bite - 1;
            BobberWaterEvent::Nibble { bubbles: bite % 5 == 0 }
        } else {
            let wait = self.wait_countdown;
            if wait > 0 {
                self.wait_countdown = wait - 1;
                BobberWaterEvent::Waiting
            } else {
                self.bite_countdown = BITE_TICKS;
                self.wait_countdown = wait_countdown_from_roll(roll);
                BobberWaterEvent::Bite
            }
        }
    }

    /// The bobber's path ran into a block: it sticks there.
    pub fn land_in_ground(&mut self)
        ensures
            *final(self) == (FishingBobberEntity { in_ground: true, ..*old(self) }),
    {
        self.in_ground = true;
    }

    /// Hooks the first candidate that is neither the owner, the bobber, nor
    /// a projectile and that touches the bobber's path; the id returned is
    /// the one hooked.
    pub fn try_hook(&mut self, candidates: &Vec<HookCandidate>) -> (r: Option<i32>)
        ensures
            match first_hookable(candidates@, old(self).owner_id, old(self).entity_id) {
                Some(i) => r == Some(candidates@[i].entity_id) && *final(self) == (
                FishingBobberEntity { hooked_entity_id: candidates@[i].entity_id, ..*old(self) }),
                None => r is None && *final(self) == *old(self),
            },
    {
        let mut i: usize = 0;
        while i < candidates.len()
            invariant
                i <= candidates.len(),
                *self == *old(self),
                first_hookable(candidates@.take(i as int), self.owner_id, self.entity_id) is None,
            decreases candidates.len() - i,
        {
            let c = candidates[i];
            assert(candidates@.take(i + 1).drop_last() =~= candidates@.take(i as int));
            if c.entity_id != self.owner_id && c.entity_id != self.entity_id && !c.is_projectile
                && c.touches {
                proof {
                    lemma_first_hookable(candidates@, self.owner_id, self.entity_id, i as int);
                }
                self.hooked_entity_id = c.entity_id;
                return Some(c.entity_id);
            }
            i = i + 1;
        }
        assert(candidates@.take(candidates.len() as int) =~= candidates@);
        None
    }

    /// What reeling in does to the rod: a hooked entity that is still in
    /// the world is pulled, else a nibbling fish is caught, else nothing;
    /// the damage is `retrieval_damage` of that outcome.
    pub fn reel_in(&self, hooked_present: bool, hooked_is_item: bool, on_ground: bool) -> (r: i32)
        ensures
            r == (if self.hooked_entity_id != 0 && hooked_present {
                retrieval_damage_of(true, hooked_is_item, false, on_ground)
            } else if self.bite_countdown > 0 {
                retrieval_damage_of(false, false, true, on_ground)
            } else {
                retrieval_damage_of(false, false, false, on_ground)
            }),
    {
        if self.hooked_entity_id != 0 && hooked_present {
            retrieval_damage(true, hooked_is_item, false, on_ground)
        } else if self.bite_countdown > 0 {
            retrieval_damage(false, false, true, on_ground)
        } else {
            retrieval_damage(false, false, false, on_ground)
        }
    }
}

/// A prefix without a hookable candidate followed by one puts it first.
proof fn lemma_first_hookable(s: Seq<HookCandidate>, owner_id: i32, self_id: i32, i: int)
    requires
        0 <= i < s.len(),
        first_hookable(s.take(i), owner_id, self_id) is None,
        hookable(s[i], owner_id, self_id),
    ensures
        first_hookable(s, owner_id, self_id) == Some(i),
    decreases s.len() - i,
{
    if i + 1 < s.len() {
        assert(s.drop_last().take(i) =~= s.take(i));
        lemma_first_hookable(s.drop_last(), owner_id, self_id, i);
    } else {
        assert(s.drop_last() =~= s.take(i));
    }
}

} // verus!
