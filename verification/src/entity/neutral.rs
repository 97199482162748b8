//! Golems, ocelots and trader llamas: their goals, their flags, and what
//! using an item on them decides.
use vstd::prelude::*;

use crate::entity::mobs::{GoalEntry, GoalKind, MobGoals, TargetType, entry};

verus! {

/// Builds a goal list from a sequence of registrations.
fn goal_list(entries: &[GoalEntry]) -> (r: Vec<GoalEntry>)
    ensures
        r@ == entries@,
{
    let mut out: Vec<GoalEntry> = Vec::new();
    let mut i: usize = 0;
    while i < entries.len()
        invariant
            i <= entries.len(),
            out@ == entries@.take(i as int),
        decreases entries.len() - i,
    {
        out.push(entries[i]);
        assert(entries@.take(i + 1) =~= entries@.take(i as int).push(entries@[i as int]));
        i = i + 1;
    }
    assert(entries@.take(entries.len() as int) =~= entries@);
    out
}

/// How cracked an iron golem looks, from its health fraction: no cracks
/// from three quarters up, then low, medium and high below each quarter.
#[derive(Clone, Copy, Debug, PartialEq, Eq, Structural)]
pub enum Crackiness {
    NoCracks,
    Low,
    Medium,
    High,
}

impl Crackiness {
    /// The level of a health fraction, given which quarter marks it falls
    /// below (the fraction is a float; the comparisons are its caller's).
    pub fn from_quarter_marks(below_quarter: bool, below_half: bool, below_three_quarters: bool) -> (r:
        Crackiness)
        ensures
            r == (if below_quarter {
                Crackiness::High
            } else if below_half {
                Crackiness::Medium
            } else if below_three_quarters {
                Crackiness::Low
            } else {
                Crackiness::NoCracks
            }),
    {
        if below_quarter {
            Crackiness::High
        } else if below_half {
            Crackiness::Medium
        } else if below_three_quarters {
            Crackiness::Low
        } else {
            Crackiness::NoCracks
        }
    }
}

/// The goals of an iron golem.
pub open spec fn iron_golem_goals() -> Seq<GoalEntry> {
    seq![
        entry(1, GoalKind::MeleeAttack { speed: 100, pause_when_idle: true }),
        entry(5, GoalKind::OfferFlower),
        entry(6, GoalKind::WanderAround { speed: 60 }),
        entry(7, GoalKind::LookAt { target: TargetType::Player, range: 6 }),
        entry(8, GoalKind::RandomLookAround),
    ]
}

/// The target goals of an iron golem.
pub open spec fn iron_golem_targets() -> Seq<GoalEntry> {
    seq![
        entry(1, GoalKind::Revenge { call_for_help: true }),
        entry(2, GoalKind::ActiveTarget { target: TargetType::Zombie, must_see: true }),
        entry(3, GoalKind::ActiveTarget { target: TargetType::Skeleton, must_see: true }),
        entry(3, GoalKind::ActiveTarget { target: TargetType::Spider, must_see: true }),
        entry(3, GoalKind::ActiveTarget { target: TargetType::Pillager, must_see: true }),
        entry(3, GoalKind::ActiveTarget { target: TargetType::Vindicator, must_see: true }),
    ]
}

/// The ticks an iron golem holds out a poppy.
pub const OFFER_FLOWER_TICKS: i32 = 400;

/// An iron golem: whether a player built it, and how long it still holds
/// out a flower.
pub struct IronGolemEntity {
    pub mob: MobGoals,
    pub is_player_created: bool,
    pub offer_flower_ticks: i32,
}

impl IronGolemEntity {
    pub fn new() -> (r: IronGolemEntity)
        ensures
            r.mob.goals@ == iron_golem_goals(),
            r.mob.targets@ == iron_golem_targets(),
            !r.is_player_created,
            r.offer_flower_ticks == 0,
    {
        let goals = goal_list(
            &[
                GoalEntry {
                    priority: 1,
                    goal: GoalKind::MeleeAttack { speed: 100, pause_when_idle: true },
                },
                GoalEntry { priority: 5, goal: GoalKind::OfferFlower },
                GoalEntry { priority: 6, goal: GoalKind::WanderAround { speed: 60 } },
                GoalEntry { priority: 7, goal: GoalKind::LookAt { target: TargetType::Player, range: 6 } },
                GoalEntry { priority: 8, goal: GoalKind::RandomLookAround },
            ],
        );
        let targets = goal_list(
            &[
                GoalEntry { priority: 1, goal: GoalKind::Revenge { call_for_help: true } },
                GoalEntry {
                    priority: 2,
                    goal: GoalKind::ActiveTarget { target: TargetType::Zombie, must_see: true },
                },
                GoalEntry {
                    priority: 3,
                    goal: GoalKind::ActiveTarget { target: TargetType::Skeleton, must_see: true },
                },
                GoalEntry {
                    priority: 3,
                    goal: GoalKind::ActiveTarget { target: TargetType::Spider, must_see: true },
                },
                GoalEntry {
                    priority: 3,
                    goal: GoalKind::ActiveTarget { target: TargetType::Pillager, must_see: true },
                },
                GoalEntry {
                    priority: 3,
                    goal: GoalKind::ActiveTarget { target: TargetType::Vindicator, must_see: true },
                },
            ],
        );
        let r = IronGolemEntity {
            mob: MobGoals { goals, targets },
            is_player_created: false,
            offer_flower_ticks: 0,
        };
        assert(r.mob.goals@ =~= iron_golem_goals());
        assert(r.mob.targets@ =~= iron_golem_targets());
        r
    }

    pub fn is_player_created(&self) -> (r: bool)
        ensures
            r == self.is_player_created,
    {
        self.is_player_created
    }

    /// Marks the golem as built by a player (or not); the flags byte sent
    /// to clients is returned.
    pub fn set_player_created(&mut self, player_created: bool) -> (r: u8)
        ensures
            final(self).is_player_created == player_created,
            final(self).offer_flower_ticks == old(self).offer_flower_ticks,
            r == (if player_created {
                1u8
            } else {
                0u8
            }),
    {
        self.is_player_created = player_created;
        if player_created {
            1
        } else {
            0
        }
    }

    /// Starts (or stops) holding out a flower.
    pub fn offer_flower(&mut self, offer: bool)
        ensures
            final(self).offer_flower_ticks == (if offer {
                OFFER_FLOWER_TICKS
            } else {
                0
            }),
            final(self).is_player_created == old(self).is_player_created,
    {
        self.offer_flower_ticks = if offer {
            OFFER_FLOWER_TICKS
        } else {
            0
        };
    }

    /// Reads `PlayerCreated`: a byte tag wins (non-zero means true), else a
    /// boolean tag, else false.
    pub fn read_player_created(&mut self, as_byte: Option<i8>, as_bool: Option<bool>)
        ensures
            final(self).is_player_created == (match as_byte {
                Some(b) => b != 0,
                None => match as_bool {
                    Some(v) => v,
                    None => false,
                },
            }),
            final(self).offer_flower_ticks == old(self).offer_flower_ticks,
    {
        self.is_player_created = match as_byte {
            Some(b) => b != 0,
            None => match as_bool {
                Some(v) => v,
                None => false,
            },
        };
    }

    /// Whether an item use repairs the golem: an iron ingot on a hurt golem
    /// heals 25 points and uses one ingot.
    pub fn repairs(is_iron_ingot: bool, hurt: bool) -> (r: bool)
        ensures
            r == (is_iron_ingot && hurt),
    {
        is_iron_ingot && hurt
    }
}

/// The goals of an ocelot.
pub open spec fn ocelot_goals() -> Seq<GoalEntry> {
    seq![
        entry(0, GoalKind::Swim),
        entry(
            4,
            GoalKind::Avoid { target: TargetType::Player, distance: 16, slow_speed: 80, fast_speed: 133 },
        ),
        entry(3, GoalKind::TemptWithFish { speed: 60 }),
        entry(9, GoalKind::Breed { speed: 80 }),
        entry(10, GoalKind::WanderAround { speed: 80 }),
        entry(11, GoalKind::LookAt { target: TargetType::Player, range: 10 }),
        entry(11, GoalKind::RandomLookAround),
    ]
}

/// The target goals of an ocelot.
pub open spec fn ocelot_targets() -> Seq<GoalEntry> {
    seq![
        entry(1, GoalKind::ActiveTarget { target: TargetType::Chicken, must_see: false }),
        entry(1, GoalKind::ActiveTarget { target: TargetType::Turtle, must_see: false }),
    ]
}

/// What feeding an ocelot decides.
#[derive(Clone, Copy, Debug, PartialEq, Eq, Structural)]
pub enum OcelotInteraction {
    /// Left to the generic mob handling.
    Pass,
    /// One fish is used up; one in three times the ocelot trusts the player.
    Fed { trusted: bool },
}

/// An ocelot and whether it trusts players.
pub struct OcelotEntity {
    pub mob: MobGoals,
    pub is_trusting: bool,
}

impl OcelotEntity {
    pub fn new() -> (r: OcelotEntity)
        ensures
            r.mob.goals@ == ocelot_goals(),
            r.mob.targets@ == ocelot_targets(),
            !r.is_trusting,
    {
        let goals = goal_list(
            &[
                GoalEntry { priority: 0, goal: GoalKind::Swim },
                GoalEntry {
                    priority: 4,
                    goal: GoalKind::Avoid {
                        target: TargetType::Player,
                        distance: 16,
                        slow_speed: 80,
                        fast_speed: 133,
                    },
                },
                GoalEntry { priority: 3, goal: GoalKind::TemptWithFish { speed: 60 } },
                GoalEntry { priority: 9, goal: GoalKind::Breed { speed: 80 } },
                GoalEntry { priority: 10, goal: GoalKind::WanderAround { speed: 80 } },
                GoalEntry {
                    priority: 11,
                    goal: GoalKind::LookAt { target: TargetType::Player, range: 10 },
                },
                GoalEntry { priority: 11, goal: GoalKind::RandomLookAround },
            ],
        );
        let targets = goal_list(
            &[
                GoalEntry {
                    priority: 1,
                    goal: GoalKind::ActiveTarget { target: TargetType::Chicken, must_see: false },
                },
                GoalEntry {
                    priority: 1,
                    goal: GoalKind::ActiveTarget { target: TargetType::Turtle, must_see: false },
                },
            ],
        );
        let r = OcelotEntity { mob: MobGoals { goals, targets }, is_trusting: false };
        assert(r.mob.goals@ =~= ocelot_goals());
        assert(r.mob.targets@ =~= ocelot_targets());
        r
    }

    pub fn is_trusting(&self) -> (r: bool)
        ensures
            r == self.is_trusting,
    {
        self.is_trusting
    }

    pub fn set_trusting(&mut self, trusting: bool)
        ensures
            final(self).is_trusting == trusting,
            final(self).mob.goals@ == old(self).mob.goals@,
    {
        self.is_trusting = trusting;
    }

    /// Feeding a distrustful ocelot fish from within three blocks uses the
    /// fish and wins its trust when `roll` (a draw below 3) is 0.
    pub fn interact(&mut self, is_fish: bool, within_three_blocks: bool, roll: u32) -> (r:
        OcelotInteraction)
        ensures
            !old(self).is_trusting && is_fish && within_three_blocks ==> r
                == (OcelotInteraction::Fed { trusted: roll == 0 }) && final(self).is_trusting == (
            roll == 0),
            !(!old(self).is_trusting && is_fish && within_three_blocks) ==> r
                == OcelotInteraction::Pass && final(self).is_trusting == old(self).is_trusting,
    {
        if !self.is_trusting && is_fish && within_three_blocks {
            if roll == 0 {
                self.set_trusting(true);
            }
            OcelotInteraction::Fed { trusted: roll == 0 }
        } else {
            OcelotInteraction::Pass
        }
    }
}

/// The goals of a snow golem.
pub open spec fn snow_golem_goals() -> Seq<GoalEntry> {
    seq![
        entry(1, GoalKind::SnowballAttack { speed: 125, interval: 20, range: 10 }),
        entry(5, GoalKind::WanderAround { speed: 100 }),
        entry(6, GoalKind::LookAt { target: TargetType::Player, range: 6 }),
        entry(6, GoalKind::RandomLookAround),
    ]
}

/// The target goals of a snow golem.
pub open spec fn snow_golem_targets() -> Seq<GoalEntry> {
    seq![
        entry(1, GoalKind::ActiveTarget { target: TargetType::Zombie, must_see: true }),
        entry(1, GoalKind::ActiveTarget { target: TargetType::Skeleton, must_see: true }),
        entry(1, GoalKind::ActiveTarget { target: TargetType::Spider, must_see: true }),
        entry(1, GoalKind::ActiveTarget { target: TargetType::Creeper, must_see: true }),
        entry(1, GoalKind::ActiveTarget { target: TargetType::Pillager, must_see: true }),
        entry(1, GoalKind::ActiveTarget { target: TargetType::Vindicator, must_see: true }),
    ]
}

/// A snow golem and whether it still wears its pumpkin.
pub struct SnowGolemEntity {
    mob: MobGoals,
    has_pumpkin: bool,
}

impl SnowGolemEntity {
    /// Whether the golem wears a pumpkin.
    pub closed spec fn pumpkin(&self) -> bool {
        self.has_pumpkin
    }

    /// The goals the golem registered.
    pub closed spec fn goal_seq(&self) -> Seq<GoalEntry> {
        self.mob.goals@
    }

    /// The target goals the golem registered.
    pub closed spec fn target_seq(&self) -> Seq<GoalEntry> {
        self.mob.targets@
    }

    /// A golem with its pumpkin.
    pub fn new() -> (r: SnowGolemEntity)
        ensures
            r.goal_seq() == snow_golem_goals(),
            r.target_seq() == snow_golem_targets(),
            r.pumpkin(),
    {
        let goals = goal_list(
            &[
                GoalEntry {
                    priority: 1,
                    goal: GoalKind::SnowballAttack { speed: 125, interval: 20, range: 10 },
                },
                GoalEntry { priority: 5, goal: GoalKind::WanderAround { speed: 100 } },
                GoalEntry { priority: 6, goal: GoalKind::LookAt { target: TargetType::Player, range: 6 } },
                GoalEntry { priority: 6, goal: GoalKind::RandomLookAround },
            ],
        );
        let targets = goal_list(
            &[
                GoalEntry {
                    priority: 1,
                    goal: GoalKind::ActiveTarget { target: TargetType::Zombie, must_see: true },
                },
                GoalEntry {
                    priority: 1,
                    goal: GoalKind::ActiveTarget { target: TargetType::Skeleton, must_see: true },
                },
                GoalEntry {
                    priority: 1,
                    goal: GoalKind::ActiveTarget { target: TargetType::Spider, must_see: true },
                },
                GoalEntry {
                    priority: 1,
                    goal: GoalKind::ActiveTarget { target: TargetType::Creeper, must_see: true },
                },
                GoalEntry {
                    priority: 1,
                    goal: GoalKind::ActiveTarget { target: TargetType::Pillager, must_see: true },
                },
                GoalEntry {
                    priority: 1,
                    goal: GoalKind::ActiveTarget { target: TargetType::Vindicator, must_see: true },
                },
            ],
        );
        let r = SnowGolemEntity { mob: MobGoals { goals, targets }, has_pumpkin: true };
        assert(r.mob.goals@ =~= snow_golem_goals());
        assert(r.mob.targets@ =~= snow_golem_targets());
        r
    }

    pub fn has_pumpkin(&self) -> (r: bool)
        ensures
            r == self.pumpkin(),
    {
        self.has_pumpkin
    }

    /// Puts on (or takes off) the pumpkin; the flags byte sent to clients
    /// is returned (16 with the pumpkin).
    pub fn set_pumpkin(&mut self, pumpkin: bool) -> (r: i8)
        ensures
            final(self).pumpkin() == pumpkin,
            final(self).goal_seq() == old(self).goal_seq(),
            final(self).target_seq() == old(self).target_seq(),
            r == (if pumpkin {
                16i8
            } else {
                0i8
            }),
    {
        self.has_pumpkin = pumpkin;
        if pumpkin {
            16
        } else {
            0
        }
    }

    /// Shears the golem: it loses its pumpkin (which drops as a carved
    /// pumpkin).
    pub fn shear(&mut self)
        ensures
            !final(self).pumpkin(),
            final(self).goal_seq() == old(self).goal_seq(),
    {
        self.set_pumpkin(false);
    }

    /// Using shears on a golem with its pumpkin shears it off (the pumpkin
    /// drops and the shears take damage); the result says whether it did.
    pub fn interact(&mut self, is_shears: bool) -> (r: bool)
        ensures
            r == (is_shears && old(self).pumpkin()),
            final(self).pumpkin() == (old(self).pumpkin() && !r),
            final(self).goal_seq() == old(self).goal_seq(),
    {
        if is_shears && self.has_pumpkin {
            self.shear();
            true
        } else {
            false
        }
    }

    /// Reads `Pumpkin`: a present value is applied.
    pub fn read_pumpkin(&mut self, stored: Option<bool>)
        ensures
            final(self).pumpkin() == (match stored {
                Some(b) => b,
                None => old(self).pumpkin(),
            }),
    {
        if let Some(p) = stored {
            self.set_pumpkin(p);
        }
    }
}

/// The goals of a trader llama.
pub open spec fn trader_llama_goals() -> Seq<GoalEntry> {
    seq![
        entry(0, GoalKind::Swim),
        entry(1, GoalKind::WanderAround { speed: 70 }),
        entry(2, GoalKind::LookAt { target: TargetType::Player, range: 6 }),
        entry(3, GoalKind::RandomLookAround),
    ]
}

/// A trader llama: whether it carries a chest and whether it is tamed.
pub struct TraderLlamaEntity {
    pub mob: MobGoals,
    pub has_chest: bool,
    pub is_tamed: bool,
}

impl TraderLlamaEntity {
    pub fn new() -> (r: TraderLlamaEntity)
        ensures
            r.mob.goals@ == trader_llama_goals(),
            r.mob.targets@ == Seq::<GoalEntry>::empty(),
            !r.has_chest,
            !r.is_tamed,
    {
        let goals = goal_list(
            &[
                GoalEntry { priority: 0, goal: GoalKind::Swim },
                GoalEntry { priority: 1, goal: GoalKind::WanderAround { speed: 70 } },
                GoalEntry { priority: 2, goal: GoalKind::LookAt { target: TargetType::Player, range: 6 } },
                GoalEntry { priority: 3, goal: GoalKind::RandomLookAround },
            ],
        );
        let r = TraderLlamaEntity {
            mob: MobGoals { goals, targets: Vec::new() },
            has_chest: false,
            is_tamed: false,
        };
        assert(r.mob.goals@ =~= trader_llama_goals());
        r
    }

    pub fn has_chest(&self) -> (r: bool)
        ensures
            r == self.has_chest,
    {
        self.has_chest
    }

    pub fn set_has_chest(&mut self, has_chest: bool)
        ensures
            final(self).has_chest == has_chest,
            final(self).is_tamed == old(self).is_tamed,
    {
        self.has_chest = has_chest;
    }

    pub fn is_tamed(&self) -> (r: bool)
        ensures
            r == self.is_tamed,
    {
        self.is_tamed
    }

    pub fn set_tamed(&mut self, tamed: bool)
        ensures
            final(self).is_tamed == tamed,
            final(self).has_chest == old(self).has_chest,
    {
        self.is_tamed = tamed;
    }

    /// Using a chest on a tamed adult llama without one equips it (and uses
    /// the chest unless the player is creative); the result says whether it
    /// did.
    pub fn interact(&mut self, is_chest: bool, is_adult: bool) -> (r: bool)
        ensures
            r == (is_chest && old(self).is_tamed && !old(self).has_chest && is_adult),
            final(self).has_chest == (old(self).has_chest || r),
            final(self).is_tamed == old(self).is_tamed,
    {
        if is_chest && self.is_tamed && !self.has_chest && is_adult {
            self.set_has_chest(true);
            true
        } else {
            false
        }
    }

    /// Reads `ChestedHorse` and `Tame`: present values are applied.
    pub fn read_nbt(&mut self, chested: Option<bool>, tame: Option<bool>)
        ensures
            final(self).has_chest == (match chested {
                Some(b) => b,
                None => old(self).has_chest,
            }),
            final(self).is_tamed == (match tame {
                Some(b) => b,
                None => old(self).is_tamed,
            }),
    {
        if let Some(c) = chested {
            self.set_has_chest(c);
        }
        if let Some(t) = tame {
            self.set_tamed(t);
        }
    }
}

} // verus!
