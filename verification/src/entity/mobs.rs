//! Hostile mobs: the goals each one registers, and their flags.
//!
//! A goal list is the sequence of `(priority, goal)` registrations in the
//! order the mob makes them; speeds are kept in hundredths and ranges in
//! blocks.
use vstd::prelude::*;

use crate::entity::goals::Navigator;
use crate::entity::hunger::Difficulty;

verus! {

/// The entity types that goals look at or target.
#[derive(Clone, Copy, Debug, PartialEq, Eq, Structural)]
pub enum TargetType {
    Player,
    Villager,
    IronGolem,
    Turtle,
    Zombie,
    Skeleton,
    Spider,
    Creeper,
    Pillager,
    Vindicator,
    Chicken,
    WitherSkeleton,
    Stray,
    Bogged,
    Rabbit,
}

/// A goal a mob registers, with its parameters.
#[derive(Clone, Copy, Debug, PartialEq, Eq, Structural)]
pub enum GoalKind {
    Swim,
    BreakDoor,
    ZombieAttack { speed: u32, pause_when_idle: bool },
    DestroyEgg { speed: u32, max_y_difference: u32 },
    WanderAround { speed: u32 },
    LookAt { target: TargetType, range: u32 },
    RandomLookAround,
    MeleeAttack { speed: u32, pause_when_idle: bool },
    ShootFireball,
    OfferFlower,
    Avoid { target: TargetType, distance: u32, slow_speed: u32, fast_speed: u32 },
    TemptWithFish { speed: u32 },
    Breed { speed: u32 },
    SnowballAttack { speed: u32, interval: u32, range: u32 },
    Revenge { call_for_help: bool },
    ActiveTarget { target: TargetType, must_see: bool },
    EscapeDanger { speed: u32 },
    FollowOwner { speed: u32, min_distance: u32, max_distance: u32 },
    FollowParent { speed: u32 },
    BegForBone { range: u32 },
    OwnerHurtByTarget,
    OwnerHurtTarget,
}

/// One registration: a priority (lower runs first) and a goal.
#[derive(Clone, Copy, Debug, PartialEq, Eq, Structural)]
pub struct GoalEntry {
    pub priority: u8,
    pub goal: GoalKind,
}

/// The goals and target goals a mob registered.
pub struct MobGoals {
    pub goals: Vec<GoalEntry>,
    pub targets: Vec<GoalEntry>,
}

/// Shorthand for a registration.
pub open spec fn entry(priority: u8, goal: GoalKind) -> GoalEntry {
    GoalEntry { priority, goal }
}

/// Builds a goal list from a sequence of registrations.
fn goal_list(entries: &[GoalEntry]) -> (r: Vec<GoalEntry>)
    ensures
        r@ == entries@,
{
    let mut out: Vec<GoalEntry> = Vec::new();
    let mut i: usize = 0;
    while i < entries.len()
        invariant
            i <= entries.len(),
            out@ == entries@.take(i as int),
        decreases entries.len() - i,
    {
        out.push(entries[i]);
        assert(entries@.take(i + 1) =~= entries@.take(i as int).push(entries@[i as int]));
        i = i + 1;
    }
    assert(entries@.take(entries.len() as int) =~= entries@);
    out
}

/// The goals of a zombie.
pub open spec fn zombie_goals() -> Seq<GoalEntry> {
    seq![
        entry(0, GoalKind::Swim),
        entry(1, GoalKind::BreakDoor),
        entry(2, GoalKind::ZombieAttack { speed: 100, pause_when_idle: false }),
        entry(4, GoalKind::DestroyEgg { speed: 100, max_y_difference: 3 }),
        entry(7, GoalKind::WanderAround { speed: 100 }),
        entry(8, GoalKind::LookAt { target: TargetType::Player, range: 8 }),
        entry(8, GoalKind::RandomLookAround),
    ]
}

/// The target goals of a zombie.
pub open spec fn zombie_targets() -> Seq<GoalEntry> {
    seq![
        entry(1, GoalKind::Revenge { call_for_help: true }),
        entry(2, GoalKind::ActiveTarget { target: TargetType::Player, must_see: true }),
        entry(3, GoalKind::ActiveTarget { target: TargetType::Villager, must_see: true }),
        entry(3, GoalKind::ActiveTarget { target: TargetType::IronGolem, must_see: true }),
        entry(5, GoalKind::ActiveTarget { target: TargetType::Turtle, must_see: true }),
    ]
}

/// The goals of a spider.
pub open spec fn spider_goals() -> Seq<GoalEntry> {
    seq![
        entry(1, GoalKind::Swim),
        entry(3, GoalKind::MeleeAttack { speed: 100, pause_when_idle: false }),
        entry(5, GoalKind::WanderAround { speed: 80 }),
        entry(6, GoalKind::LookAt { target: TargetType::Player, range: 8 }),
        entry(6, GoalKind::RandomLookAround),
    ]
}

/// The target goals of a spider.
pub open spec fn spider_targets() -> Seq<GoalEntry> {
    seq![
        entry(1, GoalKind::Revenge { call_for_help: true }),
        entry(2, GoalKind::ActiveTarget { target: TargetType::Player, must_see: true }),
        entry(3, GoalKind::ActiveTarget { target: TargetType::IronGolem, must_see: true }),
    ]
}

/// The goals of a blaze.
pub open spec fn blaze_goals() -> Seq<GoalEntry> {
    seq![
        entry(0, GoalKind::Swim),
        entry(4, GoalKind::ShootFireball),
        entry(5, GoalKind::WanderAround { speed: 100 }),
        entry(8, GoalKind::LookAt { target: TargetType::Player, range: 8 }),
        entry(8, GoalKind::RandomLookAround),
    ]
}

/// The target goals of a blaze.
pub open spec fn blaze_targets() -> Seq<GoalEntry> {
    seq![entry(2, GoalKind::ActiveTarget { target: TargetType::Player, must_see: true })]
}

/// Whether a mob killed by a charged creeper that may still drop a head
/// drops one: only under the `doMobLoot` rule.
pub open spec fn drops_mob_head(mob_drops: bool, killer_creeper_can_drop_head: bool) -> bool {
    mob_drops && killer_creeper_can_drop_head
}

/// The zombie base shared by zombies, husks and zombie villagers: its goals
/// and whether it breaks doors, which its navigator follows.
pub struct ZombieEntityBase {
    pub mob: MobGoals,
    pub navigator: Navigator,
    pub can_break_doors: bool,
}

impl ZombieEntityBase {
    /// Whether the zombie breaks doors.
    pub open spec fn breaks_doors(&self) -> bool {
        self.can_break_doors
    }

    /// A zombie with its goals that does not break doors.
    pub fn new() -> (r: ZombieEntityBase)
        ensures
            r.mob.goals@ == zombie_goals(),
            r.mob.targets@ == zombie_targets(),
            !r.breaks_doors(),
            r.navigator == (Navigator { avoid_sun: false, can_open_doors: false, can_pass_doors: true }),
    {
        let goals = goal_list(
            &[
                GoalEntry { priority: 0, goal: GoalKind::Swim },
                GoalEntry { priority: 1, goal: GoalKind::BreakDoor },
                GoalEntry {
                    priority: 2,
                    goal: GoalKind::ZombieAttack { speed: 100, pause_when_idle: false },
                },
                GoalEntry {
                    priority: 4,
                    goal: GoalKind::DestroyEgg { speed: 100, max_y_difference: 3 },
                },
                GoalEntry { priority: 7, goal: GoalKind::WanderAround { speed: 100 } },
                GoalEntry { priority: 8, goal: GoalKind::LookAt { target: TargetType::Player, range: 8 } },
                GoalEntry { priority: 8, goal: GoalKind::RandomLookAround },
            ],
        );
        let targets = goal_list(
            &[
                GoalEntry { priority: 1, goal: GoalKind::Revenge { call_for_help: true } },
                GoalEntry {
                    priority: 2,
                    goal: GoalKind::ActiveTarget { target: TargetType::Player, must_see: true },
                },
                GoalEntry {
                    priority: 3,
                    goal: GoalKind::ActiveTarget { target: TargetType::Villager, must_see: true },
                },
                GoalEntry {
                    priority: 3,
                    goal: GoalKind::ActiveTarget { target: TargetType::IronGolem, must_see: true },
                },
                GoalEntry {
                    priority: 5,
                    goal: GoalKind::ActiveTarget { target: TargetType::Turtle, must_see: true },
                },
            ],
        );
        let r = ZombieEntityBase {
            mob: MobGoals { goals, targets },
            navigator: Navigator::new(),
            can_break_doors: false,
        };
        assert(r.mob.goals@ =~= zombie_goals());
        assert(r.mob.targets@ =~= zombie_targets());
        r
    }

    pub fn can_break_doors(&self) -> (r: bool)
        ensures
            r == self.breaks_doors(),
    {
        self.can_break_doors
    }

    /// Makes the zombie break doors (or stop), and lets its paths go
    /// through doors accordingly.
    pub fn set_can_break_doors(&mut self, can_break: bool)
        ensures
            final(self).breaks_doors() == can_break,
            final(self).navigator == (Navigator { can_open_doors: can_break, ..old(self).navigator }),
            final(self).mob.goals@ == old(self).mob.goals@,
            final(self).mob.targets@ == old(self).mob.targets@,
    {
        let mut nav = self.navigator;
        nav.set_can_open_doors(can_break);
        self.can_break_doors = can_break;
        self.navigator = nav;
    }

    /// Reads the `CanBreakDoors` tag: a present value is applied.
    pub fn read_can_break_doors(&mut self, stored: Option<bool>)
        ensures
            final(self).breaks_doors() == (match stored {
                Some(b) => b,
                None => old(self).breaks_doors(),
            }),
            final(self).navigator.can_open_doors == (match stored {
                Some(b) => b,
                None => old(self).navigator.can_open_doors,
            }),
    {
        if let Some(can_break) = stored {
            self.set_can_break_doors(can_break);
        }
    }

    /// Whether a killed zombie drops a zombie head: mob drops are on and the
    /// killer is a creeper that may still drop a mob head.
    pub fn handle_creeper_drop_mob_head(mob_drops: bool, killer_creeper_can_drop_head: bool) -> (r: bool)
        ensures
            r == drops_mob_head(mob_drops, killer_creeper_can_drop_head),
    {
        mob_drops && killer_creeper_can_drop_head
    }
}

/// A husk: a zombie of the desert.
pub struct HuskEntity {
    pub entity: ZombieEntityBase,
}

impl HuskEntity {
    pub fn new() -> (r: HuskEntity)
        ensures
            r.entity.mob.goals@ == zombie_goals(),
            r.entity.mob.targets@ == zombie_targets(),
            !r.entity.breaks_doors(),
    {
        HuskEntity { entity: ZombieEntityBase::new() }
    }

    pub fn can_break_doors(&self) -> (r: bool)
        ensures
            r == self.entity.breaks_doors(),
    {
        self.entity.can_break_doors()
    }

    pub fn set_can_break_doors(&mut self, can_break: bool)
        ensures
            final(self).entity.breaks_doors() == can_break,
            final(self).entity.navigator.can_open_doors == can_break,
    {
        self.entity.set_can_break_doors(can_break);
    }
}

/// A zombie villager.
pub struct ZombieVillagerEntity {
    pub mob_entity: ZombieEntityBase,
}

impl ZombieVillagerEntity {
    pub fn new() -> (r: ZombieVillagerEntity)
        ensures
            r.mob_entity.mob.goals@ == zombie_goals(),
            r.mob_entity.mob.targets@ == zombie_targets(),
            !r.mob_entity.breaks_doors(),
    {
        ZombieVillagerEntity { mob_entity: ZombieEntityBase::new() }
    }

    pub fn can_break_doors(&self) -> (r: bool)
        ensures
            r == self.mob_entity.breaks_doors(),
    {
        self.mob_entity.can_break_doors()
    }

    pub fn set_can_break_doors(&mut self, can_break: bool)
        ensures
            final(self).mob_entity.breaks_doors() == can_break,
            final(self).mob_entity.navigator.can_open_doors == can_break,
    {
        self.mob_entity.set_can_break_doors(can_break);
    }
}

/// How a spider's climbing state changes after it moved.
#[derive(Clone, Copy, Debug, PartialEq, Eq, Structural)]
pub struct ClimbUpdate {
    /// The spider climbs now.
    pub climbing: bool,
    /// The climbing position becomes the spider's block.
    pub set_climbing_pos: bool,
    /// The climbing position is cleared.
    pub clear_climbing_pos: bool,
    /// The climbing flag changed and is sent to clients.
    pub send_flags: bool,
}

/// A spider: climbs while it runs into a wall.
pub struct SpiderEntity {
    pub mob: MobGoals,
    pub climbing: bool,
}

impl SpiderEntity {
    pub fn new() -> (r: SpiderEntity)
        ensures
            r.mob.goals@ == spider_goals(),
            r.mob.targets@ == spider_targets(),
            !r.climbing,
    {
        let goals = goal_list(
            &[
                GoalEntry { priority: 1, goal: GoalKind::Swim },
                GoalEntry {
                    priority: 3,
                    goal: GoalKind::MeleeAttack { speed: 100, pause_when_idle: false },
                },
                GoalEntry { priority: 5, goal: GoalKind::WanderAround { speed: 80 } },
                GoalEntry { priority: 6, goal: GoalKind::LookAt { target: TargetType::Player, range: 8 } },
                GoalEntry { priority: 6, goal: GoalKind::RandomLookAround },
            ],
        );
        let targets = goal_list(
            &[
                GoalEntry { priority: 1, goal: GoalKind::Revenge { call_for_help: true } },
                GoalEntry {
                    priority: 2,
                    goal: GoalKind::ActiveTarget { target: TargetType::Player, must_see: true },
                },
                GoalEntry {
                    priority: 3,
                    goal: GoalKind::ActiveTarget { target: TargetType::IronGolem, must_see: true },
                },
            ],
        );
        let r = SpiderEntity { mob: MobGoals { goals, targets }, climbing: false };
        assert(r.mob.goals@ =~= spider_goals());
        assert(r.mob.targets@ =~= spider_targets());
        r
    }

    /// After moving, a spider climbs exactly when it ran into a wall; the
    /// climbing position follows it while climbing and is cleared once it
    /// is back on the ground.
    pub fn post_tick(&mut self, horizontal_collision: bool, on_ground: bool) -> (r: ClimbUpdate)
        ensures
            final(self).climbing == horizontal_collision,
            final(self).mob.goals@ == old(self).mob.goals@,
            final(self).mob.targets@ == old(self).mob.targets@,
            r == (ClimbUpdate {
                climbing: horizontal_collision,
                set_climbing_pos: horizontal_collision,
                clear_climbing_pos: !horizontal_collision && on_ground,
                send_flags: old(self).climbing != horizontal_collision,
            }),
    {
        let was = self.climbing;
        self.climbing = horizontal_collision;
        ClimbUpdate {
            climbing: horizontal_collision,
            set_climbing_pos: horizontal_collision,
            clear_climbing_pos: !horizontal_collision && on_ground,
            send_flags: was != horizontal_collision,
        }
    }
}

/// The ticks of poison a cave spider's bite gives at a difficulty.
pub open spec fn poison_ticks(difficulty: Difficulty) -> int {
    match difficulty {
        Difficulty::Normal => 140,
        Difficulty::Hard => 300,
        _ => 0,
    }
}

/// A cave spider: a spider whose bites poison.
pub struct CaveSpiderEntity {
    pub spider: SpiderEntity,
}

impl CaveSpiderEntity {
    pub fn new() -> (r: CaveSpiderEntity)
        ensures
            r.spider.mob.goals@ == spider_goals(),
            r.spider.mob.targets@ == spider_targets(),
            !r.spider.climbing,
    {
        CaveSpiderEntity { spider: SpiderEntity::new() }
    }

    /// Seven seconds of poison in normal, fifteen in hard, none otherwise.
    pub fn poison_duration_ticks(difficulty: Difficulty) -> (r: i32)
        ensures
            r == poison_ticks(difficulty),
    {
        match difficulty {
            Difficulty::Normal => 7 * 20,
            Difficulty::Hard => 15 * 20,
            Difficulty::Peaceful | Difficulty::Easy => 0,
        }
    }

    /// The poison a successful bite on a living target gives, if any.
    pub fn after_attack(successful: bool, target_living: bool, difficulty: Difficulty) -> (r:
        Option<i32>)
        ensures
            r == (if successful && target_living && poison_ticks(difficulty) != 0 {
                Some(poison_ticks(difficulty) as i32)
            } else {
                None
            }),
    {
        if !successful || !target_living {
            return None;
        }
        let duration = Self::poison_duration_ticks(difficulty);
        if duration == 0 {
            None
        } else {
            Some(duration)
        }
    }
}

/// A blaze: its goals and whether it is charged (burning).
pub struct BlazeEntity {
    mob: MobGoals,
    charged: bool,
}

impl BlazeEntity {
    /// The goals the blaze registered.
    pub closed spec fn goal_seq(&self) -> Seq<GoalEntry> {
        self.mob.goals@
    }

    /// The target goals the blaze registered.
    pub closed spec fn target_seq(&self) -> Seq<GoalEntry> {
        self.mob.targets@
    }

    /// Whether the blaze is charged.
    pub closed spec fn charged_flag(&self) -> bool {
        self.charged
    }

    pub fn new() -> (r: BlazeEntity)
        ensures
            r.goal_seq() == blaze_goals(),
            r.target_seq() == blaze_targets(),
            !r.charged_flag(),
    {
        let goals = goal_list(
            &[
                GoalEntry { priority: 0, goal: GoalKind::Swim },
                GoalEntry { priority: 4, goal: GoalKind::ShootFireball },
                GoalEntry { priority: 5, goal: GoalKind::WanderAround { speed: 100 } },
                GoalEntry { priority: 8, goal: GoalKind::LookAt { target: TargetType::Player, range: 8 } },
                GoalEntry { priority: 8, goal: GoalKind::RandomLookAround },
            ],
        );
        let targets = goal_list(
            &[
                GoalEntry {
                    priority: 2,
                    goal: GoalKind::ActiveTarget { target: TargetType::Player, must_see: true },
                },
            ],
        );
        let r = BlazeEntity { mob: MobGoals { goals, targets }, charged: false };
        assert(r.mob.goals@ =~= blaze_goals());
        assert(r.mob.targets@ =~= blaze_targets());
        r
    }

    pub fn is_charged(&self) -> (r: bool)
        ensures
            r == self.charged_flag(),
    {
        self.charged
    }

    /// Sets the charged flag; the result says whether it changed, in which
    /// case the flags byte `charged as u8` is sent to clients.
    pub fn set_charged(&mut self, charged: bool) -> (r: bool)
        ensures
            final(self).charged_flag() == charged,
            r == (old(self).charged_flag() != charged),
            final(self).goal_seq() == old(self).goal_seq(),
            final(self).target_seq() == old(self).target_seq(),
    {
        let was = self.charged;
        self.charged = charged;
        was != charged
    }
}

/// A wither skeleton: its loot adds a skull when a charged creeper kills it.
pub struct WitherSkeletonEntity {
    pub entity_id: i32,
}

impl WitherSkeletonEntity {
    pub fn new(entity_id: i32) -> (r: WitherSkeletonEntity)
        ensures
            r.entity_id == entity_id,
    {
        WitherSkeletonEntity { entity_id }
    }

    /// Whether its death drops a wither skeleton skull.
    pub fn drops_skull(mob_drops: bool, killer_creeper_can_drop_head: bool) -> (r: bool)
        ensures
            r == drops_mob_head(mob_drops, killer_creeper_can_drop_head),
    {
        mob_drops && killer_creeper_can_drop_head
    }
}

/// The size a sulfur cube takes when it is created: the large one.
pub const SULFUR_CUBE_SIZE: i32 = 2;

/// A sulfur cube: a cube mob of size 1 or 2.
pub struct SulfurCubeEntity {
    pub size: i32,
}

impl SulfurCubeEntity {
    /// A new cube is large.
    pub fn new() -> (r: SulfurCubeEntity)
        ensures
            r.size == SULFUR_CUBE_SIZE,
    {
        SulfurCubeEntity { size: SULFUR_CUBE_SIZE }
    }
}

/// The goals of the wither.
pub open spec fn wither_goals() -> Seq<GoalEntry> {
    seq![
        entry(8, GoalKind::LookAt { target: TargetType::Player, range: 8 }),
        entry(8, GoalKind::RandomLookAround),
    ]
}

/// The ticks between two wither skulls.
pub const SHOOT_INTERVAL_TICKS: i32 = 60;

/// The ticks between two boss bar updates.
pub const BOSSBAR_SYNC_TICKS: i64 = 10;

/// What a boss bar update does for one player.
#[derive(Clone, Copy, Debug, PartialEq, Eq, Structural)]
pub enum BossbarAction {
    /// The bar is shown to the player, who joins the audience.
    Show(u128),
    /// The bar is removed from the player's screen.
    Hide(u128),
}

/// The actions a boss bar update takes for `players` (id and whether in
/// range) given the audience `shown`: players in range that are not shown
/// the bar see it, shown players out of range lose it.
pub open spec fn bossbar_actions(shown: Seq<u128>, players: Seq<(u128, bool)>) -> Seq<BossbarAction>
    decreases players.len(),
{
    if players.len() == 0 {
        Seq::empty()
    } else {
        let (id, in_range) = players[0];
        let known = shown.contains(id);
        if in_range && !known {
            seq![BossbarAction::Show(id)] + bossbar_actions(shown.push(id), players.drop_first())
        } else if !in_range && known {
            seq![BossbarAction::Hide(id)] + bossbar_actions(shown, players.drop_first())
        } else {
            bossbar_actions(shown, players.drop_first())
        }
    }
}

/// The audience after a boss bar update: every player newly shown the bar
/// joins; players who lose it stay listed.
pub open spec fn bossbar_audience(shown: Seq<u128>, players: Seq<(u128, bool)>) -> Seq<u128>
    decreases players.len(),
{
    if players.len() == 0 {
        shown
    } else {
        let (id, in_range) = players[0];
        if in_range && !shown.contains(id) {
            bossbar_audience(shown.push(id), players.drop_first())
        } else {
            bossbar_audience(shown, players.drop_first())
        }
    }
}

/// The wither: its goals, its skull cooldown and its boss bar audience.
pub struct WitherEntity {
    mob: MobGoals,
    shoot_cooldown: i32,
    bossbar_players: Vec<u128>,
}

impl WitherEntity {
    /// The goals the wither registered.
    pub closed spec fn goal_seq(&self) -> Seq<GoalEntry> {
        self.mob.goals@
    }

    /// The ticks until the next skull.
    pub closed spec fn cooldown(&self) -> int {
        self.shoot_cooldown as int
    }

    /// The players shown the boss bar.
    pub closed spec fn audience(&self) -> Seq<u128> {
        self.bossbar_players@
    }

    /// A wither with its goals, a full skull cooldown and no audience.
    pub fn new() -> (r: WitherEntity)
        ensures
            r.goal_seq() == wither_goals(),
            r.cooldown() == SHOOT_INTERVAL_TICKS,
            r.audience() == Seq::<u128>::empty(),
    {
        let goals = goal_list(
            &[
                GoalEntry { priority: 8, goal: GoalKind::LookAt { target: TargetType::Player, range: 8 } },
                GoalEntry { priority: 8, goal: GoalKind::RandomLookAround },
            ],
        );
        let r = WitherEntity {
            mob: MobGoals { goals, targets: Vec::new() },
            shoot_cooldown: SHOOT_INTERVAL_TICKS,
            bossbar_players: Vec::new(),
        };
        assert(r.mob.goals@ =~= wither_goals());
        r
    }

    /// Whether the boss bar is updated at this world age.
    pub fn bossbar_sync_due(world_age: i64) -> (r: bool)
        ensures
            r == (world_age as int % BOSSBAR_SYNC_TICKS as int == 0),
    {
        let m = world_age % BOSSBAR_SYNC_TICKS;
        assert(m == 0 <==> world_age as int % 10 == 0);
        m == 0
    }

    /// Updates the boss bar audience for the players of the world (id and
    /// whether within 48 blocks), returning what to send.
    pub fn update_audience(&mut self, players: &Vec<(u128, bool)>) -> (r: Vec<BossbarAction>)
        ensures
            r@ == bossbar_actions(old(self).audience(), players@),
            final(self).audience() == bossbar_audience(old(self).audience(), players@),
            final(self).cooldown() == old(self).cooldown(),
            final(self).goal_seq() == old(self).goal_seq(),
    {
        let mut actions: Vec<BossbarAction> = Vec::new();
        let mut i: usize = 0;
        let ghost start = self.bossbar_players@;
        assert(players@.skip(0) =~= players@);
        while i < players.len()
            invariant
                i <= players.len(),
                self.shoot_cooldown == old(self).shoot_cooldown,
                self.mob.goals@ == old(self).mob.goals@,
                start == old(self).bossbar_players@,
                actions@ + bossbar_actions(self.bossbar_players@, players@.skip(i as int))
                    == bossbar_actions(start, players@),
                bossbar_audience(self.bossbar_players@, players@.skip(i as int))
                    == bossbar_audience(start, players@),
            decreases players.len() - i,
        {
            let (id, in_range) = players[i];
            proof {
                assert(players@.skip(i as int)[0] == players@[i as int]);
                assert(players@.skip(i as int).drop_first() =~= players@.skip(i + 1));
            }
            let mut known = false;
            let mut j: usize = 0;
            while j < self.bossbar_players.len()
                invariant
                    j <= self.bossbar_players.len(),
                    known == (exists|k: int| 0 <= k < j && self.bossbar_players@[k] == id),
                decreases self.bossbar_players.len() - j,
            {
                if self.bossbar_players[j] == id {
                    known = true;
                }
                j = j + 1;
            }
            assert(known == self.bossbar_players@.contains(id));
            let ghost before = actions@;
            if in_range && !known {
                actions.push(BossbarAction::Show(id));
                self.bossbar_players.push(id);
                assert(actions@ =~= before + seq![BossbarAction::Show(id)]);
            } else if !in_range && known {
                actions.push(BossbarAction::Hide(id));
                assert(actions@ =~= before + seq![BossbarAction::Hide(id)]);
            }
            i = i + 1;
        }
        proof {
            assert(players@.skip(players.len() as int) =~= Seq::<(u128, bool)>::empty());
            assert(actions@ + Seq::<BossbarAction>::empty() =~= actions@);
        }
        actions
    }

    /// One tick of the skull cooldown while a target is near: the cooldown
    /// runs down, and once it has run out a skull is shot and it restarts.
    pub fn shoot_tick(&mut self) -> (r: bool)
        ensures
            r == (old(self).cooldown() <= 0),
            final(self).cooldown() == (if r {
                SHOOT_INTERVAL_TICKS as int
            } else {
                old(self).cooldown() - 1
            }),
            final(self).audience() == old(self).audience(),
            final(self).goal_seq() == old(self).goal_seq(),
    {
        if self.shoot_cooldown <= 0 {
            self.shoot_cooldown = SHOOT_INTERVAL_TICKS;
            true
        } else {
            self.shoot_cooldown = self.shoot_cooldown - 1;
            false
        }
    }
}

} // verus!
