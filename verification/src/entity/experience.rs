//! Experience orbs and bottles: how an amount of experience splits into
//! orbs, which orbs merge, how an orb ages and is picked up, and what it
//! stores.
use vstd::prelude::*;

use crate::random::random_below;

verus! {

/// The value of the largest vanilla orb that `value` can pay for.
pub open spec fn orb_size(value: int) -> int {
    if value >= 2477 {
        2477
    } else if value >= 1237 {
        1237
    } else if value >= 617 {
        617
    } else if value >= 307 {
        307
    } else if value >= 149 {
        149
    } else if value >= 73 {
        73
    } else if value >= 37 {
        37
    } else if value >= 17 {
        17
    } else if value >= 7 {
        7
    } else if value >= 3 {
        3
    } else {
        1
    }
}

/// The orb values that `amount` experience is spawned as: the largest orb
/// that fits, then the same for the rest.
pub open spec fn orb_split(amount: nat) -> Seq<int>
    decreases amount,
{
    if amount == 0 {
        Seq::empty()
    } else {
        let v = orb_size(amount as int);
        if v <= amount {
            seq![v] + orb_split((amount - v) as nat)
        } else {
            seq![v]
        }
    }
}

/// The sum of a sequence of integers.
pub open spec fn sum(s: Seq<int>) -> int
    decreases s.len(),
{
    if s.len() == 0 {
        0
    } else {
        s[0] + sum(s.drop_first())
    }
}

/// Experience orbs of one entity id out of forty merge, and only into the
/// orb with the lower id, only while both exist, and only when they carry
/// the same value.
pub open spec fn mergeable(
    self_id: i32,
    other_id: i32,
    self_value: u32,
    other_value: u32,
    self_removed: bool,
    other_removed: bool,
) -> bool {
    other_id > self_id && !self_removed && !other_removed && self_value == other_value && (
    other_id - self_id) % 40 == 0
}

/// Whether the orb `other_id` may be merged into the orb `self_id`.
pub fn can_merge_candidate(
    self_id: i32,
    other_id: i32,
    self_value: u32,
    other_value: u32,
    self_removed: bool,
    other_removed: bool,
) -> (r: bool)
    ensures
        r == mergeable(self_id, other_id, self_value, other_value, self_removed, other_removed),
{
    if !(other_id > self_id && !self_removed && !other_removed && self_value == other_value) {
        return false;
    }
    let diff: i64 = (other_id as i64) - (self_id as i64);
    diff % 40 == 0
}

/// Merging rules: a removed orb, on either side, is never merged; orbs of
/// different values are never merged; an orb only merges into one with a
/// lower id; two live orbs of equal value whose ids are a multiple of
/// forty apart, the other's id higher, do merge.
pub proof fn lemma_merge_rules(
    self_id: i32,
    other_id: i32,
    self_value: u32,
    other_value: u32,
    self_removed: bool,
    other_removed: bool,
)
    ensures
        other_removed ==> !mergeable(self_id, other_id, self_value, other_value, self_removed, other_removed),
        self_removed ==> !mergeable(self_id, other_id, self_value, other_value, self_removed, other_removed),
        self_value != other_value ==> !mergeable(self_id, other_id, self_value, other_value, self_removed, other_removed),
        other_id <= self_id ==> !mergeable(self_id, other_id, self_value, other_value, self_removed, other_removed),
        mergeable(self_id, other_id, self_value, other_value, self_removed, other_removed) ==> (other_id - self_id)
            % 40 == 0,
        other_id > self_id && !self_removed && !other_removed && self_value == other_value && (other_id - self_id)
            % 40 == 0 ==> mergeable(self_id, other_id, self_value, other_value, self_removed, other_removed),
{
}

/// The orb sizes, smallest first.
pub open spec fn orb_sizes() -> Seq<int> {
    seq![1, 3, 7, 17, 37, 73, 149, 307, 617, 1237, 2477]
}

/// The orb for an amount is one of the orb sizes, the largest that does
/// not exceed the amount (the smallest size, 1, for no experience).
pub proof fn lemma_orb_size_rules(value: int)
    ensures
        orb_sizes().contains(orb_size(value)),
        value >= 1 ==> orb_size(value) <= value,
        forall|i: int| 0 <= i < orb_sizes().len() && #[trigger] orb_sizes()[i] <= value ==> orb_sizes()[i] <= orb_size(
            value,
        ),
{
    let s = orb_sizes();
    let o = orb_size(value);
    if o == 1 { assert(s[0] == o); }
    else if o == 3 { assert(s[1] == o); }
    else if o == 7 { assert(s[2] == o); }
    else if o == 17 { assert(s[3] == o); }
    else if o == 37 { assert(s[4] == o); }
    else if o == 73 { assert(s[5] == o); }
    else if o == 149 { assert(s[6] == o); }
    else if o == 307 { assert(s[7] == o); }
    else if o == 617 { assert(s[8] == o); }
    else if o == 1237 { assert(s[9] == o); }
    else { assert(s[10] == o); }
}

/// Where an orb stands after one tick of ageing.
#[derive(Clone, Copy, Debug, PartialEq, Eq, Structural)]
pub enum OrbAgeOutcome {
    /// The orb reached 6000 ticks and is removed.
    Expired,
    /// The orb lives on; `scan` says whether it looks for orbs to merge
    /// this tick (every twentieth tick, starting at the first).
    Alive { scan: bool },
}

/// What an orb stores: its age and value as shorts and its count.
#[derive(Clone, Copy, Debug, PartialEq, Eq, Structural)]
pub struct OrbNbt {
    pub age: i16,
    pub value: i16,
    pub count: i32,
}

/// An orb value as the `i32` that clients and players receive.
pub open spec fn capped_value(amount: u32) -> int {
    if amount <= i32::MAX {
        amount as int
    } else {
        i32::MAX as int
    }
}

/// A short field of a stored orb, capped.
pub open spec fn stored_short(v: u32) -> int {
    if v <= i16::MAX {
        v as int
    } else {
        i16::MAX as int
    }
}

/// The count field of a stored orb, capped.
pub open spec fn stored_count(v: u32) -> int {
    if v <= i32::MAX {
        v as int
    } else {
        i32::MAX as int
    }
}

/// A stored short read back: missing or negative values as 0.
pub open spec fn read_short(v: Option<i16>) -> int {
    match v {
        Some(x) => if x > 0 {
            x as int
        } else {
            0
        },
        None => 0,
    }
}

/// A stored count read back: missing values and values below one as one.
pub open spec fn read_count(v: Option<i32>) -> int {
    match v {
        Some(x) => if x > 1 {
            x as int
        } else {
            1
        },
        None => 1,
    }
}

/// An experience orb: the value of one orb, how many equal orbs were
/// merged into it, and its age in ticks.
#[derive(Clone, Copy, Debug, PartialEq, Eq, Structural)]
pub struct ExperienceOrbEntity {
    pub entity_id: i32,
    pub amount: u32,
    pub count: u32,
    pub orb_age: u32,
}

/// How long an orb lives, in ticks.
pub const ORB_LIFETIME: u32 = 6000;

impl ExperienceOrbEntity {
    /// A single orb of `amount` experience.
    pub fn new(entity_id: i32, amount: u32) -> (r: ExperienceOrbEntity)
        ensures
            r == (ExperienceOrbEntity { entity_id, amount, count: 1, orb_age: 0 }),
    {
        ExperienceOrbEntity { entity_id, amount, count: 1, orb_age: 0 }
    }

    /// The value that is synced to clients: the amount, capped to `i32`.
    pub fn synced_value(&self) -> (r: i32)
        ensures
            r == capped_value(self.amount),
    {
        if self.amount <= 2147483647 {
            self.amount as i32
        } else {
            i32::MAX
        }
    }

    /// The value of the largest vanilla orb that `value` can pay for.
    pub fn round_to_orb_size(value: u32) -> (r: u32)
        ensures
            r == orb_size(value as int),
    {
        if value >= 2477 {
            2477
        } else if value >= 1237 {
            1237
        } else if value >= 617 {
            617
        } else if value >= 307 {
            307
        } else if value >= 149 {
            149
        } else if value >= 73 {
            73
        } else if value >= 37 {
            37
        } else if value >= 17 {
            17
        } else if value >= 7 {
            7
        } else if value >= 3 {
            3
        } else {
            1
        }
    }

    /// The orb values that `amount` experience is spawned as, largest first.
    pub fn orb_values(amount: u32) -> (r: Vec<u32>)
        ensures
            r@.map_values(|v: u32| v as int) == orb_split(amount as nat),
    {
        let mut out: Vec<u32> = Vec::new();
        let mut rest = amount;
        assert(out@.map_values(|v: u32| v as int) =~= Seq::<int>::empty());
        while rest > 0
            invariant
                out@.map_values(|v: u32| v as int) + orb_split(rest as nat) == orb_split(
                    amount as nat,
                ),
            decreases rest,
        {
            let i = Self::round_to_orb_size(rest);
            assert(1 <= i <= rest);
            let ghost before = out@.map_values(|v: u32| v as int);
            out.push(i);
            rest = rest - i;
            assert(out@.map_values(|v: u32| v as int) =~= before.push(i as int));
            assert(before + orb_split((rest + i) as nat) =~= before.push(i as int) + orb_split(
                rest as nat,
            ));
        }
        assert(orb_split(0) =~= Seq::<int>::empty());
        assert(out@.map_values(|v: u32| v as int) + Seq::<int>::empty() =~= out@.map_values(
            |v: u32| v as int,
        ));
        out
    }

    /// One tick of ageing.
    pub fn age_tick(&mut self) -> (r: OrbAgeOutcome)
        requires
            old(self).orb_age < u32::MAX,
        ensures
            *final(self) == (ExperienceOrbEntity { orb_age: (old(self).orb_age + 1) as u32, ..*old(self) }),
            r == (if final(self).orb_age >= ORB_LIFETIME {
                OrbAgeOutcome::Expired
            } else {
                OrbAgeOutcome::Alive { scan: final(self).orb_age % 20 == 1 }
            }),
    {
        self.orb_age = self.orb_age + 1;
        if self.orb_age >= ORB_LIFETIME {
            OrbAgeOutcome::Expired
        } else {
            OrbAgeOutcome::Alive { scan: self.orb_age % 20 == 1 }
        }
    }

    /// Absorbs a merged orb of `other_count` orbs and age `other_age`: the
    /// counts add up (saturating) and the younger age is kept.
    pub fn absorb(&mut self, other_count: u32, other_age: u32)
        ensures
            final(self).entity_id == old(self).entity_id,
            final(self).amount == old(self).amount,
            final(self).count == (if old(self).count + other_count > u32::MAX {
                u32::MAX as int
            } else {
                old(self).count + other_count
            }),
            final(self).orb_age == (if other_age < old(self).orb_age {
                other_age
            } else {
                old(self).orb_age
            }),
    {
        self.count = self.count.saturating_add(other_count);
        if other_age < self.orb_age {
            self.orb_age = other_age;
        }
    }

    /// A newly awarded orb coalesces into this one: one more orb, and the
    /// age starts over.  The count wraps as the atomic counter does.
    pub fn coalesce_new(&mut self)
        ensures
            final(self).entity_id == old(self).entity_id,
            final(self).amount == old(self).amount,
            final(self).count == (if old(self).count == u32::MAX {
                0
            } else {
                old(self).count + 1
            }),
            final(self).orb_age == 0,
    {
        self.count = if self.count == u32::MAX {
            0
        } else {
            self.count + 1
        };
        self.orb_age = 0;
    }

    /// A player picks up one orb: the experience granted is the value
    /// (capped to `i32`); the entity is removed when it held one orb, else
    /// its count drops by one.
    pub fn pick_up(&mut self) -> (r: (i32, bool))
        ensures
            r.0 == capped_value(old(self).amount),
            r.1 == (old(self).count <= 1),
            old(self).count <= 1 ==> *final(self) == *old(self),
            old(self).count > 1 ==> *final(self) == (ExperienceOrbEntity { count: (old(self).count - 1) as u32, ..*old(self) }),
    {
        let value = self.synced_value();
        if self.count <= 1 {
            (value, true)
        } else {
            self.count = self.count - 1;
            (value, false)
        }
    }

    /// What the orb stores: its age and value capped to a short, its count
    /// capped to an int, and the fixed health of 5 (not part of the
    /// returned record).
    pub fn to_nbt(&self) -> (r: OrbNbt)
        ensures
            r.age == stored_short(self.orb_age),
            r.value == stored_short(self.amount),
            r.count == stored_count(self.count),
    {
        OrbNbt {
            age: if self.orb_age <= 32767 {
                self.orb_age as i16
            } else {
                i16::MAX
            },
            value: if self.amount <= 32767 {
                self.amount as i16
            } else {
                i16::MAX
            },
            count: if self.count <= 2147483647 {
                self.count as i32
            } else {
                i32::MAX
            },
        }
    }

    /// Reads the stored fields: missing or negative values read as 0 (and
    /// a count below one as one).
    pub fn read_nbt(&mut self, value: Option<i16>, age: Option<i16>, count: Option<i32>)
        ensures
            final(self).entity_id == old(self).entity_id,
            final(self).amount == read_short(value),
            final(self).orb_age == read_short(age),
            final(self).count == read_count(count),
    {
        self.amount = match value {
            Some(v) => if v > 0 {
                v as u32
            } else {
                0
            },
            None => 0,
        };
        self.orb_age = match age {
            Some(v) => if v > 0 {
                v as u32
            } else {
                0
            },
            None => 0,
        };
        self.count = match count {
            Some(v) => if v > 1 {
                v as u32
            } else {
                1
            },
            None => 1,
        };
    }
}

/// Experience spawns greedily: each orb is the largest orb size that fits
/// what is left after the orbs before it, and no orb is spawned exactly
/// when there is no experience.
pub proof fn lemma_orb_split_greedy(amount: nat)
    ensures
        (orb_split(amount).len() == 0) <==> amount == 0,
        forall|i: int|
            0 <= i < orb_split(amount).len() ==> #[trigger] orb_split(amount)[i] == orb_size(
                amount - sum(orb_split(amount).take(i)),
            ),
    decreases amount,
{
    if amount > 0 {
        let v = orb_size(amount as int);
        assert(1 <= v <= amount);
        let rest = (amount - v) as nat;
        lemma_orb_split_greedy(rest);
        let s = orb_split(amount);
        let r = orb_split(rest);
        assert(s == seq![v] + r);
        assert forall|i: int| 0 <= i < s.len() implies #[trigger] s[i] == orb_size(amount - sum(s.take(i))) by {
            if i == 0 {
                assert(s.take(0) =~= Seq::<int>::empty());
            } else {
                assert(s.take(i).drop_first() =~= r.take(i - 1));
                assert(s.take(i)[0] == v);
                assert(s[i] == r[i - 1]);
            }
        }
    }
}

/// Spawning `amount` experience spawns orbs that add up to exactly that
/// amount, each of a vanilla orb size, the larger first.
pub proof fn lemma_orb_split_sums(amount: nat)
    ensures
        sum(orb_split(amount)) == amount,
        forall|i: int| 0 <= i < orb_split(amount).len() ==> orb_size(#[trigger] orb_split(amount)[i]) == orb_split(amount)[i],
        forall|i: int, j: int| 0 <= i < j < orb_split(amount).len() ==> #[trigger] orb_split(amount)[i] >= #[trigger] orb_split(amount)[j],
    decreases amount,
{
    if amount > 0 {
        let v = orb_size(amount as int);
        let rest = (amount - v) as nat;
        lemma_orb_split_sums(rest);
        let s = orb_split(amount);
        assert(s == seq![v] + orb_split(rest));
        assert(s.drop_first() =~= orb_split(rest));
        if rest > 0 {
            assert(orb_size(rest as int) <= v);
            assert(orb_split(rest)[0] == orb_size(rest as int));
        }
        assert forall|i: int, j: int| 0 <= i < j < s.len() implies #[trigger] s[i] >= #[trigger] s[j] by {
            if i == 0 {
                if j > 0 {
                    assert(s[j] == orb_split(rest)[j - 1]);
                    assert(orb_split(rest)[0] >= orb_split(rest)[j - 1]);
                }
            } else {
                assert(s[i] == orb_split(rest)[i - 1]);
                assert(s[j] == orb_split(rest)[j - 1]);
            }
        }
    }
}

/// An experience bottle that bursts into 3 to 11 experience.
#[derive(Clone, Copy, Debug, PartialEq, Eq, Structural)]
pub struct ExperienceBottleEntity {
    pub entity_id: i32,
}

impl ExperienceBottleEntity {
    pub fn new(entity_id: i32) -> (r: ExperienceBottleEntity)
        ensures
            r.entity_id == entity_id,
    {
        ExperienceBottleEntity { entity_id }
    }

    /// The experience of a burst bottle, drawn from 3 to 11.
    pub fn burst_experience(&self) -> (r: u32)
        ensures
            3 <= r <= 11,
    {
        random_below(9) + 3
    }
}

/// An orb whose value and age fit a short and whose count fits an int
/// reads back as stored.
pub proof fn lemma_orb_nbt_round_trip(orb: ExperienceOrbEntity, stored: OrbNbt)
    requires
        orb.amount <= i16::MAX,
        orb.orb_age <= i16::MAX,
        1 <= orb.count <= i32::MAX,
        stored.age == stored_short(orb.orb_age),
        stored.value == stored_short(orb.amount),
        stored.count == stored_count(orb.count),
    ensures
        read_short(Some(stored.value)) == orb.amount,
        read_short(Some(stored.age)) == orb.orb_age,
        read_count(Some(stored.count)) == orb.count,
{
}

} // verus!
