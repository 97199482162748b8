//! Mob goals: the controls a goal claims, the path navigator flags that
//! goals toggle, and the state machines of the goals whose decisions do not
//! depend on world geometry.
use vstd::prelude::*;

use crate::entity::doors::BlockPos;
use crate::random::{random_below, random_u16};

verus! {

/// The set of controls a running goal claims (movement, looking, jumping,
/// targeting), as bits.
#[derive(Clone, Copy, Debug, PartialEq, Eq, Structural)]
pub struct Controls {
    pub bits: u8,
}

/// The bit of the movement control.
pub const MOVE_BIT: u8 = 1;

/// The bit of the look control.
pub const LOOK_BIT: u8 = 2;

/// The bit of the jump control.
pub const JUMP_BIT: u8 = 4;

/// The bit of the target control.
pub const TARGET_BIT: u8 = 8;

impl Controls {
    /// No control.
    pub fn empty() -> (r: Controls)
        ensures
            r.bits == 0,
    {
        Controls { bits: 0 }
    }

    /// Movement only.
    pub fn movement() -> (r: Controls)
        ensures
            r.bits == MOVE_BIT,
    {
        Controls { bits: MOVE_BIT }
    }

    /// Looking only.
    pub fn look() -> (r: Controls)
        ensures
            r.bits == LOOK_BIT,
    {
        Controls { bits: LOOK_BIT }
    }

    /// Jumping only.
    pub fn jump() -> (r: Controls)
        ensures
            r.bits == JUMP_BIT,
    {
        Controls { bits: JUMP_BIT }
    }

    /// Targeting only.
    pub fn target() -> (r: Controls)
        ensures
            r.bits == TARGET_BIT,
    {
        Controls { bits: TARGET_BIT }
    }

    /// The controls of both sets.
    pub fn union(self, other: Controls) -> (r: Controls)
        ensures
            r.bits == self.bits | other.bits,
    {
        Controls { bits: self.bits | other.bits }
    }

    /// Whether every control of `other` is in this set.
    pub fn contains(self, other: Controls) -> (r: bool)
        ensures
            r == (self.bits & other.bits == other.bits),
    {
        self.bits & other.bits == other.bits
    }
}

/// The path navigator flags that goals and mobs toggle.  A navigator may
/// pass closed doors' openings by default; it opens doors only when told.
#[derive(Clone, Copy, Debug, PartialEq, Eq, Structural)]
pub struct Navigator {
    pub avoid_sun: bool,
    pub can_open_doors: bool,
    pub can_pass_doors: bool,
}

impl Navigator {
    /// A navigator that neither avoids the sun nor opens doors.
    pub fn new() -> (r: Navigator)
        ensures
            !r.avoid_sun,
            !r.can_open_doors,
            r.can_pass_doors,
    {
        Navigator { avoid_sun: false, can_open_doors: false, can_pass_doors: true }
    }

    pub fn avoid_sun(&self) -> (r: bool)
        ensures
            r == self.avoid_sun,
    {
        self.avoid_sun
    }

    /// Makes paths keep out of (or stop keeping out of) direct sunlight.
    pub fn set_avoid_sun(&mut self, avoid: bool)
        ensures
            *final(self) == (Navigator { avoid_sun: avoid, ..*old(self) }),
    {
        self.avoid_sun = avoid;
    }

    pub fn can_open_doors(&self) -> (r: bool)
        ensures
            r == self.can_open_doors,
    {
        self.can_open_doors
    }

    pub fn can_pass_doors(&self) -> (r: bool)
        ensures
            r == self.can_pass_doors,
    {
        self.can_pass_doors
    }

    /// Lets paths go through doors that the mob opens (or stops that).
    pub fn set_can_open_doors(&mut self, can_open: bool)
        ensures
            *final(self) == (Navigator { can_open_doors: can_open, ..*old(self) }),
    {
        self.can_open_doors = can_open;
    }
}

impl Default for Navigator {
    fn default() -> (r: Navigator)
        ensures
            r == (Navigator { avoid_sun: false, can_open_doors: false, can_pass_doors: true }),
    {
        Navigator::new()
    }
}

/// How long a sheep takes to eat grass, in ticks.
pub const MAX_TIMER: i32 = 40;

/// What a sheep eats when its eating timer reaches four ticks left.
#[derive(Clone, Copy, Debug, PartialEq, Eq, Structural)]
pub enum GrassMeal {
    /// Nothing edible is left where it stands.
    Nothing,
    /// The edible plant at its feet; `grief` says whether the block is
    /// removed (the `mobGriefing` rule).
    PlantHere { grief: bool },
    /// The grass block below it; `grief` says whether it turns to dirt.
    GrassBelow { grief: bool },
}

/// A sheep eating grass: claims movement, looking and jumping while its
/// timer runs down from 40.
pub struct EatGrassGoal {
    goal_control: Controls,
    timer: i32,
}

impl EatGrassGoal {
    /// The ticks left of the eating animation.
    pub closed spec fn timer_value(&self) -> int {
        self.timer as int
    }

    /// The controls the goal claims.
    pub closed spec fn control_bits(&self) -> u8 {
        self.goal_control.bits
    }

    /// A goal that is not eating.
    pub fn new() -> (r: EatGrassGoal)
        ensures
            r.timer_value() == 0,
            r.control_bits() == MOVE_BIT | LOOK_BIT | JUMP_BIT,
    {
        let c = Controls::movement().union(Controls::look()).union(Controls::jump());
        EatGrassGoal { goal_control: c, timer: 0 }
    }

    pub fn get_timer(&self) -> (r: i32)
        ensures
            r == self.timer_value(),
    {
        self.timer
    }

    pub fn controls(&self) -> (r: Controls)
        ensures
            r.bits == self.control_bits(),
    {
        self.goal_control
    }

    /// One in how many ticks a sheep of this age tries to eat: babies try
    /// twenty times as often.
    pub fn start_chance(age: i32) -> (r: u32)
        ensures
            r == (if age < 0 {
                50u32
            } else {
                1000u32
            }),
    {
        if age < 0 {
            50
        } else {
            1000
        }
    }

    /// Whether eating starts, given the draw below `start_chance(age)` and
    /// what lies at and below the sheep.
    pub fn can_start_with(roll: u32, edible_here: bool, grass_below: bool) -> (r: bool)
        ensures
            r == (roll == 0 && (edible_here || grass_below)),
    {
        roll == 0 && (edible_here || grass_below)
    }

    /// Draws the start roll and decides whether eating starts.
    pub fn can_start(age: i32, edible_here: bool, grass_below: bool) -> (r: bool)
        ensures
            r ==> edible_here || grass_below,
    {
        let roll = random_below(Self::start_chance(age));
        Self::can_start_with(roll, edible_here, grass_below)
    }

    pub fn should_continue(&self) -> (r: bool)
        ensures
            r == (self.timer_value() > 0),
    {
        self.timer > 0
    }

    /// Starts the eating animation.
    pub fn start(&mut self)
        ensures
            final(self).timer_value() == MAX_TIMER,
            final(self).control_bits() == old(self).control_bits(),
    {
        self.timer = MAX_TIMER;
    }

    /// One tick of eating: the timer runs down, and at four ticks left the
    /// sheep eats what it stands on, else the grass below it.
    pub fn tick(&mut self, edible_here: bool, grass_below: bool, mob_griefing: bool) -> (r:
        GrassMeal)
        requires
            old(self).timer_value() > i32::MIN,
        ensures
            final(self).timer_value() == old(self).timer_value() - 1,
            final(self).control_bits() == old(self).control_bits(),
            r == (if final(self).timer_value() != 4 {
                GrassMeal::Nothing
            } else if edible_here {
                GrassMeal::PlantHere { grief: mob_griefing }
            } else if grass_below {
                GrassMeal::GrassBelow { grief: mob_griefing }
            } else {
                GrassMeal::Nothing
            }),
    {
        self.timer = self.timer - 1;
        if self.timer != 4 {
            GrassMeal::Nothing
        } else if edible_here {
            GrassMeal::PlantHere { grief: mob_griefing }
        } else if grass_below {
            GrassMeal::GrassBelow { grief: mob_griefing }
        } else {
            GrassMeal::Nothing
        }
    }

    pub fn stop(&mut self)
        ensures
            final(self).timer_value() == 0,
            final(self).control_bits() == old(self).control_bits(),
    {
        self.timer = 0;
    }
}

impl Default for EatGrassGoal {
    fn default() -> (r: EatGrassGoal)
        ensures
            r.timer_value() == 0,
            r.control_bits() == MOVE_BIT | LOOK_BIT | JUMP_BIT,
    {
        EatGrassGoal::new()
    }
}

/// An entity near an iron golem that it might offer a flower to.
#[derive(Clone, Copy, Debug, PartialEq, Eq, Structural)]
pub struct FlowerCandidate {
    pub entity_id: i32,
    pub is_villager: bool,
    pub age: i32,
    pub alive: bool,
}

/// The index of the first candidate that is a living baby villager.
pub open spec fn first_baby_villager(candidates: Seq<FlowerCandidate>) -> Option<int>
    decreases candidates.len(),
{
    if candidates.len() == 0 {
        None
    } else if candidates.last().is_villager && candidates.last().age < 0
        && candidates.last().alive {
        match first_baby_villager(candidates.drop_last()) {
            Some(i) => Some(i),
            None => Some(candidates.len() - 1),
        }
    } else {
        first_baby_villager(candidates.drop_last())
    }
}

/// An iron golem offering a poppy to a baby villager for 400 ticks.
pub struct OfferFlowerGoal {
    timer: i32,
    target: Option<i32>,
}

impl OfferFlowerGoal {
    /// The ticks left of the offer.
    pub closed spec fn timer_value(&self) -> int {
        self.timer as int
    }

    /// The entity id of the villager offered to.
    pub closed spec fn target_id(&self) -> Option<i32> {
        self.target
    }

    /// A goal that offers nothing.
    pub fn new() -> (r: OfferFlowerGoal)
        ensures
            r.timer_value() == 0,
            r.target_id() is None,
    {
        OfferFlowerGoal { timer: 0, target: None }
    }

    /// The controls the goal claims: movement and looking.
    pub fn controls(&self) -> (r: Controls)
        ensures
            r.bits == MOVE_BIT | LOOK_BIT,
    {
        Controls::movement().union(Controls::look())
    }

    /// Whether the offer starts, given the day-time flag, a drawn `u16`
    /// (one in 400 values starts it) and the nearby entities in the order
    /// the world lists them; the first living baby villager becomes the
    /// target.
    pub fn can_start_with(&mut self, day: bool, roll: u16, nearby: &Vec<FlowerCandidate>) -> (r:
        bool)
        ensures
            final(self).timer_value() == old(self).timer_value(),
            r == (day && roll % 400 == 0 && first_baby_villager(nearby@) is Some),
            r ==> final(self).target_id() == Some(nearby@[first_baby_villager(nearby@)->0].entity_id),
            !r ==> final(self).target_id() == old(self).target_id(),
    {
        if !day {
            return false;
        }
        if roll % 400 != 0 {
            return false;
        }
        let mut i: usize = 0;
        while i < nearby.len()
            invariant
                i <= nearby.len(),
                first_baby_villager(nearby@.take(i as int)) is None,
                day,
                roll % 400 == 0,
                self.timer == old(self).timer,
                self.target == old(self).target,
            decreases nearby.len() - i,
        {
            let c = nearby[i];
            assert(nearby@.take(i + 1).drop_last() =~= nearby@.take(i as int));
            if c.is_villager && c.age < 0 && c.alive {
                proof {
                    lemma_first_baby_villager(nearby@, i as int);
                }
                self.target = Some(c.entity_id);
                return true;
            }
            i = i + 1;
        }
        assert(nearby@.take(nearby.len() as int) =~= nearby@);
        false
    }

    /// Draws the roll and decides whether the offer starts.
    pub fn can_start(&mut self, day: bool, nearby: &Vec<FlowerCandidate>) -> (r: bool)
        ensures
            final(self).timer_value() == old(self).timer_value(),
            r ==> day && first_baby_villager(nearby@) is Some,
            r ==> final(self).target_id() == Some(nearby@[first_baby_villager(nearby@)->0].entity_id),
            !r ==> final(self).target_id() == old(self).target_id(),
    {
        let roll = random_u16();
        self.can_start_with(day, roll, nearby)
    }

    /// Whether the offer goes on: time is left and the target is alive and
    /// within six blocks.
    pub fn should_continue(&self, target_alive: bool, target_within_six_blocks: bool) -> (r: bool)
        ensures
            r == (self.target_id() is Some && self.timer_value() > 0 && target_alive
                && target_within_six_blocks),
    {
        match self.target {
            None => false,
            Some(_) => self.timer > 0 && target_alive && target_within_six_blocks,
        }
    }

    pub fn start(&mut self)
        ensures
            final(self).timer_value() == 400,
            final(self).target_id() == old(self).target_id(),
    {
        self.timer = 400;
    }

    pub fn stop(&mut self)
        ensures
            final(self).timer_value() == 0,
            final(self).target_id() is None,
    {
        self.timer = 0;
        self.target = None;
    }

    /// One tick: the offer runs down by a tick; the id returned is the
    /// target the golem looks at.
    pub fn tick(&mut self) -> (r: Option<i32>)
        requires
            old(self).timer_value() > i32::MIN,
        ensures
            final(self).timer_value() == old(self).timer_value() - 1,
            final(self).target_id() == old(self).target_id(),
            r == old(self).target_id(),
    {
        self.timer = self.timer - 1;
        self.target
    }
}

/// A prefix without a baby villager followed by one puts it first.
proof fn lemma_first_baby_villager(s: Seq<FlowerCandidate>, i: int)
    requires
        0 <= i < s.len(),
        first_baby_villager(s.take(i)) is None,
        s[i].is_villager && s[i].age < 0 && s[i].alive,
    ensures
        first_baby_villager(s) == Some(i),
    decreases s.len() - i,
{
    if i + 1 < s.len() {
        assert(s.drop_last().take(i) =~= s.take(i));
        lemma_first_baby_villager(s.drop_last(), i);
    } else {
        assert(s.drop_last() =~= s.take(i));
    }
}

/// A mob that avoids direct sunlight while it is day and its head is bare.
pub struct RestrictSunGoal {}

impl RestrictSunGoal {
    pub fn new() -> (r: RestrictSunGoal) {
        RestrictSunGoal {}
    }

    /// The goal claims no control.
    pub fn controls(&self) -> (r: Controls)
        ensures
            r.bits == 0,
    {
        Controls::empty()
    }

    /// Whether the goal applies: the mob still exists, it is day, and
    /// nothing is worn on its head.
    pub fn is_applicable(mob_present: bool, day: bool, head_empty: bool) -> (r: bool)
        ensures
            r == (mob_present && day && head_empty),
    {
        mob_present && day && head_empty
    }

    /// Starting makes the mob's paths avoid the sun.
    pub fn start(&self, navigator: &mut Navigator)
        ensures
            *final(navigator) == (Navigator { avoid_sun: true, ..*old(navigator) }),
    {
        navigator.set_avoid_sun(true);
    }

    /// Stopping lets the mob's paths cross sunlight again.
    pub fn stop(&self, navigator: &mut Navigator)
        ensures
            *final(navigator) == (Navigator { avoid_sun: false, ..*old(navigator) }),
    {
        navigator.set_avoid_sun(false);
    }
}

/// How long a phantom waits after a sweep before it may dive again.
pub const SWEEP_COOLDOWN_TICKS: i32 = 60;

/// A phantom diving at the player below it.
pub struct PhantomSweepAttackGoal {
    goal_control: Controls,
    cooldown: i32,
}

impl PhantomSweepAttackGoal {
    /// The ticks left before a dive may start.
    pub closed spec fn cooldown_value(&self) -> int {
        self.cooldown as int
    }

    /// A goal that may dive at once and claims no control.
    pub fn new() -> (r: PhantomSweepAttackGoal)
        ensures
            r.cooldown_value() == 0,
    {
        PhantomSweepAttackGoal { goal_control: Controls::empty(), cooldown: 0 }
    }

    pub fn controls(&self) -> (r: Controls)
        ensures
            r.bits == 0,
    {
        proof {
            use_type_invariant(self);
        }
        self.goal_control
    }

    #[verifier::type_invariant]
    spec fn wf(self) -> bool {
        self.goal_control.bits == 0 && 0 <= self.cooldown <= SWEEP_COOLDOWN_TICKS
    }

    /// Whether a dive starts: while cooling down the cooldown runs down by
    /// a tick and no dive starts; else one draw in twenty (`roll == 0`)
    /// starts a dive at a player more than four blocks below.
    pub fn can_start_with(&mut self, roll: u32, player_in_range: bool, player_below: bool) -> (r:
        bool)
        ensures
            old(self).cooldown_value() > 0 ==> !r && final(self).cooldown_value()
                == old(self).cooldown_value() - 1,
            old(self).cooldown_value() <= 0 ==> r == (roll == 0 && player_in_range
                && player_below) && final(self).cooldown_value() == old(self).cooldown_value(),
    {
        proof {
            use_type_invariant(&*self);
        }
        if self.cooldown > 0 {
            self.cooldown = self.cooldown - 1;
            return false;
        }
        roll == 0 && player_in_range && player_below
    }

    /// Draws the roll and decides whether a dive starts.
    pub fn can_start(&mut self, player_in_range: bool, player_below: bool) -> (r: bool)
        ensures
            r ==> old(self).cooldown_value() <= 0 && player_in_range && player_below,
            final(self).cooldown_value() == (if old(self).cooldown_value() > 0 {
                old(self).cooldown_value() - 1
            } else {
                old(self).cooldown_value()
            }),
    {
        let roll = random_below(20);
        self.can_start_with(roll, player_in_range, player_below)
    }

    /// One tick of the dive: a bite (the target within three blocks) starts
    /// the cooldown.
    pub fn tick(&mut self, target_within_bite_range: bool)
        ensures
            target_within_bite_range ==> final(self).cooldown_value() == SWEEP_COOLDOWN_TICKS,
            !target_within_bite_range ==> final(self).cooldown_value()
                == old(self).cooldown_value(),
    {
        proof {
            use_type_invariant(&*self);
        }
        if target_within_bite_range {
            self.cooldown = SWEEP_COOLDOWN_TICKS;
        }
    }

    pub fn stop(&mut self)
        ensures
            final(self).cooldown_value() == SWEEP_COOLDOWN_TICKS,
    {
        proof {
            use_type_invariant(&*self);
        }
        self.cooldown = SWEEP_COOLDOWN_TICKS;
    }
}

/// What one tick of a snowball attack decides.
#[derive(Clone, Copy, Debug, PartialEq, Eq, Structural)]
pub struct SnowballTick {
    /// The cooldown after the tick.
    pub cooldown: i32,
    /// A snowball is thrown at the target.
    pub shoot: bool,
}

/// One tick of a snowball attack (a snow golem's): the cooldown counts
/// down, and when it has run out and the target is within range a
/// snowball is thrown and the cooldown restarts at the attack interval.
/// (Out of range the mob walks toward its target instead.)
pub fn snowball_tick(cooldown: i32, attack_interval: i32, in_range: bool) -> (r: SnowballTick)
    requires
        cooldown > i32::MIN,
    ensures
        r.shoot == (cooldown - 1 <= 0 && in_range),
        r.cooldown == (if r.shoot {
            attack_interval as int
        } else {
            cooldown - 1
        }),
{
    let next = cooldown - 1;
    if next <= 0 && in_range {
        SnowballTick { cooldown: attack_interval, shoot: true }
    } else {
        SnowballTick { cooldown: next, shoot: false }
    }
}

/// Whether a mob may start fleeing the sun: it has no target, it burns, it
/// is day, the sky is visible from its block, and nothing is worn on its
/// head.
pub fn flee_sun_applies(has_target: bool, on_fire: bool, day: bool, sees_sky: bool, head_empty: bool) -> (r:
    bool)
    ensures
        r == (!has_target && on_fire && day && sees_sky && head_empty),
{
    !has_target && on_fire && day && sees_sky && head_empty
}

/// Whether `p` lies within 10 blocks across and 3 blocks up or down of
/// `pos`.
pub open spec fn near_hide(pos: BlockPos, p: BlockPos) -> bool {
    &&& pos.x - 10 <= p.x <= pos.x + 10
    &&& pos.y - 3 <= p.y <= pos.y + 3
    &&& pos.z - 10 <= p.z <= pos.z + 10
}

/// Whether a drawn offset lies within 10 blocks across and 3 up or down.
pub open spec fn offset_in_reach(o: (i32, i32, i32)) -> bool {
    &&& -10 <= o.0 <= 10
    &&& -3 <= o.1 <= 3
    &&& -10 <= o.2 <= 10
}

/// The block at offset `o` from `pos`.
pub open spec fn shifted(pos: BlockPos, o: (i32, i32, i32)) -> BlockPos {
    BlockPos { x: (pos.x + o.0) as i32, y: (pos.y + o.1) as i32, z: (pos.z + o.2) as i32 }
}

/// A random offset in `-reach..=reach`.
fn random_offset(reach: u32) -> (r: i32)
    requires
        reach <= 10,
    ensures
        -(reach as int) <= r <= reach,
{
    let draw = random_below(2 * reach + 1);
    draw as i32 - reach as i32
}

/// The hiding place among drawn offsets: the candidates `pos + offsets[i]`
/// are tried in draw order and the first from which the sky cannot be seen
/// is chosen; where the sky is seen from all of them, there is none.
pub fn hide_pos_from_offsets<F: Fn(&BlockPos) -> bool>(
    pos: BlockPos,
    offsets: &[(i32, i32, i32)],
    can_see_sky: F,
) -> (r: Option<BlockPos>)
    requires
        i32::MIN + 10 <= pos.x <= i32::MAX - 10,
        i32::MIN + 3 <= pos.y <= i32::MAX - 3,
        i32::MIN + 10 <= pos.z <= i32::MAX - 10,
        forall|i: int| 0 <= i < offsets@.len() ==> offset_in_reach(#[trigger] offsets@[i]),
        forall|p: &BlockPos| #[trigger] can_see_sky.requires((p,)),
    ensures
        match r {
            Some(p) => exists|i: int|
                0 <= i < offsets@.len() && p == shifted(pos, offsets@[i]) && can_see_sky.ensures(
                    (&p,),
                    false,
                ) && forall|j: int|
                    0 <= j < i ==> can_see_sky.ensures((&shifted(pos, #[trigger] offsets@[j]),), true),
            None => forall|i: int|
                0 <= i < offsets@.len() ==> can_see_sky.ensures((&shifted(pos, #[trigger] offsets@[i]),), true),
        },
{
    let mut i: usize = 0;
    while i < offsets.len()
        invariant
            i <= offsets@.len(),
            i32::MIN + 10 <= pos.x <= i32::MAX - 10,
            i32::MIN + 3 <= pos.y <= i32::MAX - 3,
            i32::MIN + 10 <= pos.z <= i32::MAX - 10,
            forall|k: int| 0 <= k < offsets@.len() ==> offset_in_reach(#[trigger] offsets@[k]),
            forall|p: &BlockPos| #[trigger] can_see_sky.requires((p,)),
            forall|j: int| 0 <= j < i ==> can_see_sky.ensures((&shifted(pos, #[trigger] offsets@[j]),), true),
        decreases offsets.len() - i,
    {
        let (dx, dy, dz) = offsets[i];
        assert(offset_in_reach(offsets@[i as int]));
        let candidate = BlockPos { x: pos.x + dx, y: pos.y + dy, z: pos.z + dz };
        assert(candidate == shifted(pos, offsets@[i as int]));
        let sees_sky = can_see_sky(&candidate);
        if !sees_sky {
            return Some(candidate);
        }
        i = i + 1;
    }
    None
}

/// A shaded block for a burning mob to hide in: ten random offsets within
/// 10 blocks across and 3 up or down are drawn, and the first candidate
/// from which the sky cannot be seen is chosen.  Where the sky can be seen
/// from every block in that reach, there is none; where it can be seen from
/// none of them, the first block tried is chosen.
pub fn find_hide_pos<F: Fn(&BlockPos) -> bool>(pos: BlockPos, can_see_sky: F) -> (r: Option<BlockPos>)
    requires
        i32::MIN + 10 <= pos.x <= i32::MAX - 10,
        i32::MIN + 3 <= pos.y <= i32::MAX - 3,
        i32::MIN + 10 <= pos.z <= i32::MAX - 10,
        forall|p: &BlockPos| #[trigger] can_see_sky.requires((p,)),
    ensures
        r matches Some(p) ==> near_hide(pos, p) && can_see_sky.ensures((&p,), false),
        (forall|p: BlockPos, b: bool|
            near_hide(pos, p) && #[trigger] can_see_sky.ensures((&p,), b) ==> b) ==> r is None,
        (forall|p: BlockPos, b: bool|
            near_hide(pos, p) && #[trigger] can_see_sky.ensures((&p,), b) ==> !b) ==> r is Some,
{
    let mut offsets: Vec<(i32, i32, i32)> = Vec::new();
    while offsets.len() < 10
        invariant
            offsets@.len() <= 10,
            forall|k: int| 0 <= k < offsets@.len() ==> offset_in_reach(#[trigger] offsets@[k]),
        decreases 10 - offsets@.len(),
    {
        let dx = random_offset(10);
        let dy = random_offset(3);
        let dz = random_offset(10);
        offsets.push((dx, dy, dz));
    }
    let r = hide_pos_from_offsets(pos, offsets.as_slice(), can_see_sky);
    proof {
        assert forall|k: int| 0 <= k < offsets@.len() implies near_hide(pos, #[trigger] shifted(pos, offsets@[k])) by {
            assert(offset_in_reach(offsets@[k]));
        }
        if r is None && (forall|p: BlockPos, b: bool|
            near_hide(pos, p) && #[trigger] can_see_sky.ensures((&p,), b) ==> !b) {
            let p0 = shifted(pos, offsets@[0]);
            assert(near_hide(pos, p0));
            assert(can_see_sky.ensures((&p0,), true));
        }
    }
    r
}

} // verus!
