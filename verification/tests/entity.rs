use pumpkin::entity::decoration::{CrystalDamage, EndCrystalEntity, FrameDamage, ItemFrameEntity, PaintingEntity};
use pumpkin::entity::doors::{
    BlockPos, BreakDoorGoal, BreakStep, DoorInteractGoal, DoorTags, door_candidates, find_door_pos, is_door_open,
    is_wooden_door, other_half,
};
use pumpkin::entity::experience::{ExperienceBottleEntity, ExperienceOrbEntity, OrbAgeOutcome, can_merge_candidate};
use pumpkin::entity::fishing::{
    BobberTickStart, BobberWaterEvent, FishingBobberEntity, HookCandidate, HookedLookup, WaterCell,
    calculate_open_water, retrieval_damage, wait_countdown_from_roll,
};
use pumpkin::entity::goals::{
    Controls, EatGrassGoal, GrassMeal, MAX_TIMER, Navigator, OfferFlowerGoal, FlowerCandidate,
    PhantomSweepAttackGoal, RestrictSunGoal, SnowballTick, find_hide_pos, flee_sun_applies, hide_pos_from_offsets, snowball_tick,
};
use pumpkin::entity::hunger::{
    Difficulty, FoodHeal, HungerFacts, clamp_food_level, food_level_after_eating, food_level_from_nbt,
    hunger_tick,
};
use pumpkin::entity::minecart::{
    CartItem, CartLead, CartSlowdown, CommandMinecart, GroundBlock, HopperMinecart, MinecartDamageFacts,
    CartLoot, LootSource, MinecartEntity, MinecartType, MinecartUse, drops_after_damage, minecart_use, plan_minecart_damage, tnt_fuse, tnt_fuse_from, MinecartKind, PushFacts, PushPartner,
    PushPlan, RailBlock, RailShape, Thrust, cart_slowdown, driver_thrust, drop_item, get_exits, locate_rail,
    push_plan, rail_effect, rail_fit,
};
use pumpkin::entity::mobs::{
    BlazeEntity, BossbarAction, CaveSpiderEntity, SpiderEntity, WitherEntity, WitherSkeletonEntity, ZombieEntityBase,
};
use pumpkin::entity::neutral::{Crackiness, IronGolemEntity, OcelotEntity, OcelotInteraction, SnowGolemEntity, TraderLlamaEntity};
use pumpkin::entity::passive::{
    AxolotlEntity, CatEntity, SalmonEntity, TameInteraction, TropicalFishEntity, WolfEntity,
    dye_color_from_item, dye_color_id, tameable_flags, tropical_pattern_id,
};
use pumpkin::entity::predicate::{EntityFacts, EntityPredicate, except_creative_or_spectator};
use pumpkin::entity::projectiles::{
    FireworkRocketEntity, WitherSkullEntity, firework_flight_duration, firework_lifetime,
};
use pumpkin::entity::falling::{FallingEntity, LeftBehind, SourceFluid, left_behind};

#[test]
fn test_door_interact_passed_dot_product() {
    let dir_x = 1.0f32;
    let dir_z = 0.0f32;

    // Current vector points in same direction: dot > 0 -> not passed
    let curr_x = 0.5f32;
    let curr_z = 0.0f32;
    assert!(dir_x * curr_x + dir_z * curr_z >= 0.0);

    // Mob moved past door: current vector is behind initial: dot < 0 -> passed
    let past_x = -0.5f32;
    let past_z = 0.0f32;
    assert!(dir_x * past_x + dir_z * past_z < 0.0);
}

#[test]
fn test_eat_grass_goal_initialization() {
    let goal = EatGrassGoal::default();
    assert_eq!(goal.get_timer(), 0);
    assert_eq!(
        goal.controls(),
        Controls::movement().union(Controls::look()).union(Controls::jump())
    );
    assert_eq!(MAX_TIMER, 40);
}

#[test]
fn test_baby_sheep_age_acceleration() {
    // -24000 ticks is baby start age in vanilla
    let age: i32 = -24000;
    let accelerated = (age + 1200).min(0);
    assert_eq!(accelerated, -22800);

    // Near maturity
    let age_near: i32 = -500;
    let accelerated_near = (age_near + 1200).min(0);
    assert_eq!(accelerated_near, 0);
}

#[test]
fn eat_grass_eats_at_four_ticks_left() {
    let mut goal = EatGrassGoal::new();
    assert!(!goal.should_continue());
    goal.start();
    assert_eq!(goal.get_timer(), 40);
    for _ in 0..35 {
        assert_eq!(goal.tick(true, true, true), GrassMeal::Nothing);
    }
    assert_eq!(goal.tick(false, true, false), GrassMeal::GrassBelow { grief: false });
    assert_eq!(goal.get_timer(), 4);
    assert_eq!(goal.tick(true, true, true), GrassMeal::Nothing);
    goal.stop();
    assert_eq!(goal.get_timer(), 0);
    assert_eq!(EatGrassGoal::start_chance(-1), 50);
    assert_eq!(EatGrassGoal::start_chance(0), 1000);
    assert!(EatGrassGoal::can_start_with(0, false, true));
    assert!(!EatGrassGoal::can_start_with(1, true, true));
    assert!(!EatGrassGoal::can_start_with(0, false, false));
}

#[test]
fn test_restrict_sun_goal_initialization() {
    let goal = RestrictSunGoal::new();
    assert_eq!(goal.controls(), Controls::empty());
}

#[test]
fn test_navigator_avoid_sun_toggle() {
    let mut navigator = Navigator::default();
    assert!(!navigator.avoid_sun());
    navigator.set_avoid_sun(true);
    assert!(navigator.avoid_sun());
    navigator.set_avoid_sun(false);
    assert!(!navigator.avoid_sun());
}

#[test]
fn restrict_sun_goal_toggles_the_navigator() {
    let goal = RestrictSunGoal::new();
    let mut navigator = Navigator::new();
    goal.start(&mut navigator);
    assert!(navigator.avoid_sun());
    goal.stop(&mut navigator);
    assert!(!navigator.avoid_sun());
    assert!(RestrictSunGoal::is_applicable(true, true, true));
    assert!(!RestrictSunGoal::is_applicable(true, false, true));
}

#[test]
fn offer_flower_targets_the_first_baby_villager() {
    let mut goal = OfferFlowerGoal::new();
    let nearby = vec![
        FlowerCandidate { entity_id: 1, is_villager: true, age: 5, alive: true },
        FlowerCandidate { entity_id: 2, is_villager: false, age: -5, alive: true },
        FlowerCandidate { entity_id: 3, is_villager: true, age: -5, alive: true },
        FlowerCandidate { entity_id: 4, is_villager: true, age: -5, alive: true },
    ];
    assert!(!goal.can_start_with(true, 1, &nearby));
    assert!(!goal.can_start_with(false, 0, &nearby));
    assert!(goal.can_start_with(true, 400, &nearby));
    goal.start();
    assert!(goal.should_continue(true, true));
    assert_eq!(goal.tick(), Some(3));
    goal.stop();
    assert!(!goal.should_continue(true, true));
}

#[test]
fn phantom_sweep_waits_out_its_cooldown() {
    let mut goal = PhantomSweepAttackGoal::new();
    assert!(goal.can_start_with(0, true, true));
    goal.tick(true);
    for _ in 0..60 {
        assert!(!goal.can_start_with(0, true, true));
    }
    assert!(goal.can_start_with(0, true, true));
    assert!(!goal.can_start_with(3, true, true));
    assert_eq!(goal.controls(), Controls::empty());
}

#[test]
fn orb_sizes_match_vanilla_thresholds() {
    assert_eq!(ExperienceOrbEntity::round_to_orb_size(1), 1);
    assert_eq!(ExperienceOrbEntity::round_to_orb_size(6), 3);
    assert_eq!(ExperienceOrbEntity::round_to_orb_size(7), 7);
    assert_eq!(ExperienceOrbEntity::round_to_orb_size(2_500), 2_477);
}

#[test]
fn merge_gate_is_one_sided_and_value_sensitive() {
    assert!(can_merge_candidate(10, 50, 7, 7, false, false));
    assert!(!can_merge_candidate(50, 10, 7, 7, false, false));
    assert!(!can_merge_candidate(10, 50, 3, 7, false, false));
    assert!(!can_merge_candidate(10, 51, 7, 7, false, false));
    assert!(!can_merge_candidate(10, 50, 7, 7, true, false));
}

#[test]
fn experience_splits_into_orbs_that_add_up() {
    let values = ExperienceOrbEntity::orb_values(2500);
    assert_eq!(values, vec![2477, 17, 3, 3]);
    assert_eq!(values.iter().sum::<u32>(), 2500);
    assert!(ExperienceOrbEntity::orb_values(0).is_empty());
    let mut orb = ExperienceOrbEntity::new(1, 7);
    orb.absorb(2, 5);
    assert_eq!(orb.count, 3);
    assert_eq!(orb.pick_up(), (7, false));
    assert_eq!(orb.count, 2);
    orb.orb_age = 5998;
    assert_eq!(orb.age_tick(), OrbAgeOutcome::Alive { scan: false });
    assert_eq!(orb.age_tick(), OrbAgeOutcome::Expired);
    let stored = ExperienceOrbEntity { entity_id: 1, amount: 40000, count: 2, orb_age: 3 }.to_nbt();
    assert_eq!(stored.value, i16::MAX);
    let mut read = ExperienceOrbEntity::new(2, 0);
    read.read_nbt(Some(-3), None, Some(0));
    assert_eq!((read.amount, read.orb_age, read.count), (0, 0, 1));
}

#[test]
fn food_bar_addition_is_saturating_for_datapack_values() {
    assert_eq!(food_level_after_eating(20, u8::MAX), 20);
    assert_eq!(food_level_after_eating(19, u8::MAX), 20);
    assert_eq!(food_level_after_eating(3, 4), 7);
}

fn facts(level: u8, timer: u32) -> HungerFacts {
    HungerFacts {
        level,
        tick_timer: timer,
        exhaustion_above_cost: false,
        saturation_positive: false,
        saturation_above_one: false,
        difficulty: Difficulty::Normal,
        natural_regeneration: true,
        can_heal: true,
        health_above_ten: true,
        health_above_one: true,
    }
}

#[test]
fn hunger_tick_heals_and_starves_on_vanilla_timers() {
    let full = HungerFacts { saturation_positive: true, saturation_above_one: true, ..facts(20, 9) };
    let t = hunger_tick(full);
    assert_eq!(t.heal, FoodHeal::FromSaturation);
    assert_eq!(t.tick_timer, 0);
    let fed = hunger_tick(facts(18, 79));
    assert_eq!(fed.heal, FoodHeal::FromFood);
    let starving = hunger_tick(facts(0, 79));
    assert!(starving.starve);
    let peaceful = hunger_tick(HungerFacts { difficulty: Difficulty::Peaceful, ..facts(0, 79) });
    assert!(!peaceful.starve);
    let middle = hunger_tick(facts(10, 50));
    assert_eq!(middle.tick_timer, 0);
    let exhausted = hunger_tick(HungerFacts { exhaustion_above_cost: true, ..facts(10, 0) });
    assert_eq!(exhausted.level, 9);
    assert!(exhausted.needs_sync);
    let drained = hunger_tick(HungerFacts {
        exhaustion_above_cost: true,
        saturation_positive: true,
        ..facts(10, 0)
    });
    assert_eq!(drained.level, 10);
    assert!(drained.drain_saturation);
    assert_eq!(clamp_food_level(200), 20);
    assert_eq!(food_level_from_nbt(Some(300)), 20);
    assert_eq!(food_level_from_nbt(Some(7)), 7);
    assert_eq!(food_level_from_nbt(None), 20);
}

#[test]
fn test_zombie_can_break_doors_flag() {
    let mut zombie = ZombieEntityBase::new();
    assert!(!zombie.can_break_doors());
    zombie.set_can_break_doors(true);
    assert!(zombie.can_break_doors());
}

#[test]
fn test_zombie_can_break_doors_nbt_serialization() {
    let mut zombie = ZombieEntityBase::new();
    zombie.read_can_break_doors(Some(true));
    assert!(zombie.can_break_doors());
    zombie.read_can_break_doors(None);
    assert!(zombie.can_break_doors());
}

#[test]
fn test_navigator_can_open_doors_toggle() {
    let mut navigator = Navigator::default();
    assert!(!navigator.can_open_doors());
    navigator.set_can_open_doors(true);
    assert!(navigator.can_open_doors());
    assert!(navigator.can_pass_doors());
    navigator.set_can_open_doors(false);
    assert!(!navigator.can_open_doors());
}

#[test]
fn zombie_door_breaking_drives_its_navigator() {
    let mut zombie = ZombieEntityBase::new();
    zombie.set_can_break_doors(true);
    assert!(zombie.navigator.can_open_doors());
    zombie.set_can_break_doors(false);
    assert!(!zombie.navigator.can_open_doors());
    assert!(ZombieEntityBase::handle_creeper_drop_mob_head(true, true));
    assert!(!ZombieEntityBase::handle_creeper_drop_mob_head(false, true));
    assert_eq!(zombie.mob.goals.len(), 7);
    assert_eq!(zombie.mob.targets.len(), 5);
}

#[test]
fn cave_spider_poison_duration_matches_vanilla_difficulty() {
    assert_eq!(CaveSpiderEntity::poison_duration_ticks(Difficulty::Peaceful), 0);
    assert_eq!(CaveSpiderEntity::poison_duration_ticks(Difficulty::Easy), 0);
    assert_eq!(CaveSpiderEntity::poison_duration_ticks(Difficulty::Normal), 140);
    assert_eq!(CaveSpiderEntity::poison_duration_ticks(Difficulty::Hard), 300);
}

#[test]
fn spider_climbs_while_against_a_wall() {
    let mut spider = SpiderEntity::new();
    let update = spider.post_tick(true, false);
    assert!(update.climbing && update.send_flags && update.set_climbing_pos);
    let update = spider.post_tick(true, false);
    assert!(!update.send_flags);
    let update = spider.post_tick(false, true);
    assert!(update.clear_climbing_pos && update.send_flags);
    assert_eq!(CaveSpiderEntity::after_attack(true, true, Difficulty::Hard), Some(300));
    assert_eq!(CaveSpiderEntity::after_attack(false, true, Difficulty::Hard), None);
}

#[test]
fn blaze_reports_charge_changes() {
    let mut blaze = BlazeEntity::new();
    assert!(!blaze.is_charged());
    assert!(blaze.set_charged(true));
    assert!(!blaze.set_charged(true));
    assert!(blaze.is_charged());
}

#[test]
fn wither_shoots_every_sixty_ticks_and_tracks_its_audience() {
    let mut wither = WitherEntity::new();
    for _ in 0..60 {
        assert!(!wither.shoot_tick());
    }
    assert!(wither.shoot_tick());
    assert!(!wither.shoot_tick());
    let actions = wither.update_audience(&vec![(1, true), (2, false)]);
    assert_eq!(actions, vec![BossbarAction::Show(1)]);
    let actions = wither.update_audience(&vec![(1, false), (2, true)]);
    assert_eq!(actions, vec![BossbarAction::Hide(1), BossbarAction::Show(2)]);
    assert!(WitherEntity::bossbar_sync_due(20));
    assert!(!WitherEntity::bossbar_sync_due(21));
}

#[test]
fn cat_tameable_flags_bitfield() {
    assert_eq!(tameable_flags(false, false), 0);
    assert_eq!(tameable_flags(true, false), 1);
    assert_eq!(tameable_flags(false, true), 4);
    assert_eq!(tameable_flags(true, true), 5);
}

#[test]
fn wolf_tameable_flags_bitfield() {
    let wolf = WolfEntity::new();
    assert_eq!(wolf.tameable_flags(), 0);
    assert_eq!(tameable_flags(false, false), 0);
    assert_eq!(tameable_flags(true, false), 1);
    assert_eq!(tameable_flags(false, true), 4);
    assert_eq!(tameable_flags(true, true), 5);
}

#[test]
fn pets_are_tamed_dyed_fed_and_seated() {
    let player: u128 = 0x1234_5678;
    let stranger: u128 = 99;
    let mut cat = CatEntity::new();
    assert_eq!(cat.mob_interact(player, None, true, false, 1), TameInteraction::Tame { success: false });
    assert!(!cat.pet.tamed);
    assert_eq!(cat.get_owner_uuid(), None);
    assert_eq!(cat.mob_interact(player, None, true, false, 0), TameInteraction::Tame { success: true });
    assert!(cat.pet.tamed && cat.pet.sitting);
    assert_eq!(cat.get_owner_uuid(), Some(player));
    assert_eq!(cat.tameable_flags(), 5);
    assert_eq!(
        cat.mob_interact(player, Some(11), false, false, 0),
        TameInteraction::DyeCollar { color: 11, changed: true }
    );
    assert_eq!(cat.pet.collar_color, 11);
    assert_eq!(cat.mob_interact(stranger, Some(3), false, false, 0), TameInteraction::Pass);
    assert_eq!(cat.collar_color(), 11);
    assert_eq!(cat.mob_interact(player, None, true, true, 0), TameInteraction::Feed);
    assert_eq!(cat.mob_interact(player, None, false, false, 0), TameInteraction::Sit { sitting: false });
    assert!(!cat.is_sitting());
    let mut wolf = WolfEntity::new();
    assert_eq!(wolf.mob_interact(player, None, false, false, false, 0), TameInteraction::Pass);
    assert_eq!(wolf.mob_interact(player, None, false, true, false, 0), TameInteraction::Tame { success: true });
    assert_eq!(wolf.get_owner_uuid(), Some(player));
    assert_eq!(wolf.mob_interact(stranger, None, false, false, false, 0), TameInteraction::Pass);
    assert_eq!(wolf.mob_interact(player, None, false, false, false, 0), TameInteraction::Sit { sitting: false });
    assert_eq!(dye_color_from_item("minecraft:blue_dye"), Some(11));
    assert_eq!(dye_color_from_item("white_dye"), Some(0));
    assert_eq!(dye_color_from_item("bone"), None);
    wolf.set_variant_name("minecraft:woods");
    assert_eq!(wolf.variant, 8);
    cat.set_variant_name("calico");
    assert_eq!(cat.variant, 3);
}

#[test]
fn dye_colors_resolution() {
    assert_eq!(dye_color_from_item("white_dye"), Some(0));
    assert_eq!(dye_color_from_item("orange_dye"), Some(1));
    assert_eq!(dye_color_from_item("red_dye"), Some(14));
    assert_eq!(dye_color_from_item("black_dye"), Some(15));
    assert_eq!(dye_color_from_item("bone"), None);
}

#[test]
fn pet_variants_round_trip_through_their_stored_names() {
    let mut wolf = WolfEntity::new();
    assert_eq!(wolf.variant_name(), "minecraft:pale");
    for v in 0u8..=8 {
        wolf.variant = v;
        let name = wolf.variant_name();
        let mut other = WolfEntity::new();
        other.read_nbt(Some(name.as_str()), None, None, None, None);
        assert_eq!(other.variant, v);
    }
    let mut cat = CatEntity::new();
    assert_eq!(cat.variant_name(), "minecraft:tabby");
    for v in 0u8..=10 {
        cat.variant = v;
        let name = cat.variant_name();
        let mut other = CatEntity::new();
        other.read_nbt(Some(name.as_str()), None, None, None, None);
        assert_eq!(other.variant, v);
    }
    cat.variant = 3;
    assert_eq!(cat.variant_name(), "minecraft:calico");
}

#[test]
fn pet_nbt_fields_replace_only_what_is_stored() {
    let mut wolf = WolfEntity::new();
    wolf.read_nbt(Some("minecraft:rusty"), Some(-5), Some(true), Some(true), Some(7));
    assert_eq!(wolf.variant, 4);
    assert_eq!(wolf.collar_color(), 251);
    assert!(wolf.is_sitting() && wolf.is_tamed());
    assert_eq!(wolf.get_owner_uuid(), Some(7));
    wolf.read_nbt(None, None, Some(false), None, None);
    assert_eq!(wolf.variant, 4);
    assert!(!wolf.is_sitting() && wolf.is_tamed());
    assert_eq!(wolf.get_owner_uuid(), Some(7));
    wolf.set_begging(true);
    assert!(wolf.is_begging());
    wolf.set_owner(None);
    assert_eq!(wolf.get_owner_uuid(), None);
    let mut cat = CatEntity::new();
    cat.read_nbt(Some("minecraft:calico"), Some(11), Some(true), Some(true), None);
    assert_eq!(cat.variant, 3);
    assert_eq!(cat.collar_color(), 11);
    assert_eq!(cat.tameable_flags(), 5);
    cat.set_lying(true);
    assert!(cat.is_lying());
    cat.set_collar_color(2);
    cat.set_sitting(false);
    cat.set_tamed(false);
    assert_eq!(cat.tameable_flags(), 0);
    assert_eq!(cat.collar_color(), 2);
}

#[test]
fn tropical_fish_variant_uses_vanilla_packed_layout() {
    let variant = tropical_pattern_id("stripey") | (dye_color_id("orange") << 16) | (dye_color_id("gray") << 24);
    assert_eq!(variant, 0x0701_0101);
    let mut fish = TropicalFishEntity::new();
    fish.set_variant_components("minecraft:stripey", "orange", "gray");
    assert_eq!(fish.variant, 0x0701_0101);
}

#[test]
fn tropical_fish_defaults_to_kob_white_white() {
    assert_eq!(tropical_pattern_id("unknown"), 0);
    assert_eq!(dye_color_id("unknown"), 0);
}

#[test]
fn axolotl_and_salmon_variants_round_trip() {
    let mut axolotl = AxolotlEntity::new();
    axolotl.set_variant_value("minecraft:cyan");
    assert_eq!(axolotl.variant, 3);
    assert_eq!(axolotl.variant_name(), "cyan");
    axolotl.set_variant_value("purple");
    assert_eq!(axolotl.variant_name(), "lucy");
    let mut salmon = SalmonEntity::new();
    assert_eq!(salmon.size_name(), "medium");
    salmon.set_size("large");
    assert_eq!(salmon.size, 2);
    assert_eq!(salmon.size_name(), "large");
}

#[test]
fn golems_ocelots_and_llamas_follow_their_item_rules() {
    let mut golem = IronGolemEntity::new();
    assert_eq!(golem.set_player_created(true), 1);
    assert!(golem.is_player_created());
    golem.read_player_created(None, Some(true));
    assert!(golem.is_player_created());
    golem.read_player_created(Some(0), Some(true));
    assert!(!golem.is_player_created());
    golem.offer_flower(true);
    assert_eq!(golem.offer_flower_ticks, 400);
    assert_eq!(Crackiness::from_quarter_marks(false, true, true), Crackiness::Medium);
    assert_eq!(Crackiness::from_quarter_marks(false, false, false), Crackiness::NoCracks);
    let mut ocelot = OcelotEntity::new();
    assert_eq!(ocelot.interact(true, true, 2), OcelotInteraction::Fed { trusted: false });
    assert_eq!(ocelot.interact(true, false, 0), OcelotInteraction::Pass);
    assert_eq!(ocelot.interact(true, true, 0), OcelotInteraction::Fed { trusted: true });
    assert!(ocelot.is_trusting());
    let mut snow = SnowGolemEntity::new();
    assert!(snow.has_pumpkin());
    assert!(snow.interact(true));
    assert!(!snow.has_pumpkin());
    assert!(!snow.interact(true));
    let mut llama = TraderLlamaEntity::new();
    assert!(!llama.interact(true, true));
    llama.set_tamed(true);
    assert!(llama.interact(true, true));
    assert!(llama.has_chest());
}

#[test]
fn except_creative_or_spectator_matches_vanilla_target_filter() {
    assert!(except_creative_or_spectator(false, false, false));
    assert!(except_creative_or_spectator(true, false, false));
    assert!(!except_creative_or_spectator(true, true, false));
    assert!(!except_creative_or_spectator(true, false, true));
    assert!(!except_creative_or_spectator(true, true, true));
}

#[test]
fn entity_predicates_read_the_entity_facts() {
    let facts = EntityFacts {
        alive: true,
        living: true,
        has_passengers: false,
        has_vehicle: true,
        container_minecart: false,
        is_player: true,
        spectator: false,
        creative: true,
        collidable: true,
        can_hit: true,
        vehicles: vec![7, 9],
    };
    assert!(EntityPredicate::ValidLivingEntity.test(&facts));
    assert!(!EntityPredicate::NotMounted.test(&facts));
    assert!(!EntityPredicate::ExceptCreativeOrSpectator.test(&facts));
    assert!(EntityPredicate::CanHit.test(&facts));
    assert!(!EntityPredicate::Rides(9).test(&facts));
    assert!(EntityPredicate::Rides(8).test(&facts));
}

#[test]
fn lifetime_uses_vanilla_flight_duration_and_random_bounds() {
    assert_eq!(firework_lifetime(0, 0, 0), 10);
    assert_eq!(firework_lifetime(0, 5, 6), 21);
    assert_eq!(firework_lifetime(3, 2, 4), 46);
    assert_eq!(firework_lifetime(-5, 0, 0), 10);
}

#[test]
fn item_component_controls_flight_duration() {
    assert_eq!(firework_flight_duration(None), 1);
    assert_eq!(firework_flight_duration(Some(3)), 3);
    assert_eq!(firework_flight_duration(Some(255)), 127);
}

#[test]
fn fishing_retrieval_damage_matches_vanilla_outcomes() {
    assert_eq!(retrieval_damage(true, true, false, false), 3);
    assert_eq!(retrieval_damage(true, false, false, false), 5);
    assert_eq!(retrieval_damage(false, false, true, false), 1);
    assert_eq!(retrieval_damage(false, false, false, true), 2);
    assert_eq!(retrieval_damage(true, false, true, true), 2);
    assert_eq!(retrieval_damage(false, false, false, false), 0);
}

#[test]
fn bobber_counts_down_to_a_bite_and_hooks_entities() {
    assert_eq!(wait_countdown_from_roll(0), 100);
    assert_eq!(wait_countdown_from_roll(-601), 101);
    assert_eq!(wait_countdown_from_roll(i32::MIN), 348);
    let mut bobber = FishingBobberEntity::new_with_roll(5, 1, 2);
    assert_eq!(bobber.wait_countdown, 102);
    bobber.wait_countdown = 1;
    assert_eq!(bobber.water_tick(true, 0), BobberWaterEvent::Waiting);
    assert_eq!(bobber.water_tick(true, 0), BobberWaterEvent::Bite);
    assert_eq!(bobber.bite_countdown, 40);
    assert_eq!(bobber.wait_countdown, 100);
    assert_eq!(bobber.water_tick(true, 0), BobberWaterEvent::Nibble { bubbles: true });
    assert_eq!(bobber.reel_in(false, false, false), 1);
    let candidates = vec![
        HookCandidate { entity_id: 1, is_projectile: false, touches: true },
        HookCandidate { entity_id: 8, is_projectile: true, touches: true },
        HookCandidate { entity_id: 9, is_projectile: false, touches: true },
    ];
    assert_eq!(bobber.try_hook(&candidates), Some(9));
    assert_eq!(bobber.begin_tick(HookedLookup::Present), BobberTickStart::FollowHooked);
    assert_eq!(bobber.reel_in(true, false, false), 5);
    assert_eq!(bobber.begin_tick(HookedLookup::Removed), BobberTickStart::Move);
    assert_eq!(bobber.hooked_entity_id, 0);
    bobber.land_in_ground();
    assert_eq!(bobber.begin_tick(HookedLookup::Present), BobberTickStart::Stuck);
}

#[test]
fn open_water_needs_a_water_bottom_and_air_above() {
    let mut cells = vec![WaterCell::InsideWater; 50];
    cells.extend(vec![WaterCell::AboveWater; 50]);
    assert!(calculate_open_water(&cells));
    let mut mixed = cells.clone();
    mixed[30] = WaterCell::AboveWater;
    assert!(!calculate_open_water(&mixed));
    let mut inverted = vec![WaterCell::AboveWater; 25];
    inverted.extend(vec![WaterCell::InsideWater; 75]);
    assert!(!calculate_open_water(&inverted));
    let mut blocked = cells.clone();
    blocked[99] = WaterCell::Blocked;
    assert!(!calculate_open_water(&blocked));
    let mut water_over_air = vec![WaterCell::InsideWater; 25];
    water_over_air.extend(vec![WaterCell::AboveWater; 25]);
    water_over_air.extend(vec![WaterCell::InsideWater; 50]);
    assert!(!calculate_open_water(&water_over_air));
}

#[test]
fn command_minecart_activation_cooldown_is_four_ticks() {
    let mut minecart = CommandMinecart::new();
    minecart.activation_cooldown = 4;
    minecart.tick();
    assert_eq!(minecart.activation_cooldown, 3);
    minecart.tick();
    minecart.tick();
    minecart.tick();
    assert_eq!(minecart.activation_cooldown, 0);
}

#[test]
fn command_minecart_runs_its_trimmed_command_once_per_cooldown() {
    let mut minecart = CommandMinecart::new();
    minecart.command = "  say hi ".to_owned();
    assert_eq!(minecart.activate(), Some("say hi".to_owned()));
    assert_eq!(minecart.activate(), None);
    minecart.read_nbt(Some("  ".to_owned()), None, None, Some(-4));
    assert!(minecart.track_output);
    assert_eq!(minecart.success_count, 0);
}

#[test]
fn rails_guide_and_power_minecarts() {
    assert_eq!(get_exits(RailShape::AscendingEast), ((-1, 0, 0), (1, 1, 0)));
    let corner = rail_fit(RailShape::SouthEast);
    assert!(corner.in_corner && !corner.snap_x && !corner.snap_z);
    let straight = rail_fit(RailShape::NorthSouth);
    assert!(!straight.in_corner && straight.snap_x && !straight.snap_z && !straight.ascending);
    assert!(rail_fit(RailShape::AscendingNorth).ascending);
    assert_eq!(locate_rail(RailBlock::NotRail, RailBlock::PoweredRail), Some((true, RailBlock::PoweredRail)));
    let effect = rail_effect(MinecartKind::Tnt, RailBlock::ActivatorRail, true, false);
    assert!(effect.prime_tnt && !effect.boost);
    let effect = rail_effect(MinecartKind::Hopper, RailBlock::ActivatorRail, false, false);
    assert_eq!(effect.hopper_enabled, Some(true));
    let effect = rail_effect(MinecartKind::Rideable, RailBlock::PoweredRail, false, true);
    assert!(effect.brake && !effect.eject_passengers);
}

#[test]
fn decorations_break_as_vanilla_does() {
    let crystal = EndCrystalEntity::new(1);
    assert_eq!(crystal.damage_outcome(false, false, false, true), CrystalDamage::Destroyed { explode: false });
    assert_eq!(crystal.damage_outcome(false, false, true, false), CrystalDamage::Ignored);
    let mut painting = PaintingEntity::new(2, 0);
    painting.read_facing(None);
    assert_eq!(painting.facing, 3);
    assert_eq!(painting.damage_outcome(false, true, true, true), Some(false));
    let mut frame = ItemFrameEntity::new(3);
    assert_eq!(frame.get_analog_output(), 0);
    frame.has_item = true;
    frame.read_orientation(Some(11), Some(-1));
    assert_eq!(frame.rotation, 3);
    assert_eq!(frame.facing, 255 % 6);
    assert_eq!(frame.get_analog_output(), 4);
    assert_eq!(frame.damage(false, false, false, false, true, true), FrameDamage::PopItem { drop: true });
    assert!(!frame.has_item);
    assert_eq!(
        frame.damage(false, false, false, false, true, true),
        FrameDamage::Break { drop_frame: true, drop_item: false }
    );
    let skull = WitherSkullEntity::new_shot(4, 9);
    assert_eq!(skull.owner_id, Some(9));
    assert_eq!(WitherSkullEntity::wither_duration(true), Some(800));
}

#[test]
fn command_minecart_nbt_preserves_command_state() {
    let mut minecart = CommandMinecart::new();
    minecart.command = "say hello".to_owned();
    minecart.last_output = "ok".to_owned();
    minecart.success_count = 7;
    let (command, last_output, track_output, success_count) = minecart.write_nbt();

    let mut restored = CommandMinecart::new();
    restored.read_nbt(Some(command), Some(last_output), Some(track_output), Some(success_count));
    assert_eq!(restored.command.as_str(), "say hello");
    assert_eq!(restored.last_output.as_str(), "ok");
    assert_eq!(restored.success_count, 7);
}

#[test]
fn command_minecart_nbt_preserves_track_output_flag() {
    let mut minecart = CommandMinecart::new();
    minecart.track_output = false;
    let (command, last_output, track_output, success_count) = minecart.write_nbt();
    assert!(!track_output);

    let mut restored = CommandMinecart::new();
    restored.read_nbt(Some(command), Some(last_output), Some(track_output), Some(success_count));
    assert!(!restored.track_output);
}

#[test]
fn command_editor_drops_one_leading_slash_and_detector_output_caps_at_fifteen() {
    let mut minecart = CommandMinecart::new();
    minecart.set_command("/say hi", false);
    assert_eq!(minecart.command, "say hi");
    assert!(!minecart.track_output);
    minecart.set_command("//x", true);
    assert_eq!(minecart.command, "/x");
    minecart.set_command("", true);
    assert_eq!(minecart.command, "");
    minecart.success_count = 3;
    assert_eq!(minecart.comparator_output(), 3);
    minecart.success_count = 40;
    assert_eq!(minecart.comparator_output(), 15);
}

#[test]
fn broken_carts_drop_their_own_item() {
    assert_eq!(drop_item(MinecartKind::Chest), Some(CartItem::ChestMinecart));
    assert_eq!(drop_item(MinecartKind::Tnt), Some(CartItem::TntMinecart));
    assert_eq!(drop_item(MinecartKind::Command), Some(CartItem::Minecart));
    assert_eq!(drop_item(MinecartKind::Spawner), Some(CartItem::Minecart));
    assert_eq!(drop_item(MinecartKind::Other), None);
}

#[test]
fn carts_slow_down_by_where_they_are() {
    assert_eq!(cart_slowdown(MinecartKind::Furnace, true, false, false, GroundBlock::Air, false), CartSlowdown::Furnace);
    assert_eq!(cart_slowdown(MinecartKind::Hopper, true, true, false, GroundBlock::Air, false), CartSlowdown::Container);
    assert_eq!(cart_slowdown(MinecartKind::Rideable, true, true, false, GroundBlock::Air, false), CartSlowdown::LoadedRail);
    assert_eq!(cart_slowdown(MinecartKind::Rideable, true, false, false, GroundBlock::Air, false), CartSlowdown::EmptyRail);
    assert_eq!(cart_slowdown(MinecartKind::Furnace, false, false, false, GroundBlock::Solid, false), CartSlowdown::Ground);
    assert_eq!(cart_slowdown(MinecartKind::Chest, false, false, false, GroundBlock::Water, false), CartSlowdown::Water);
    assert_eq!(cart_slowdown(MinecartKind::Chest, false, false, false, GroundBlock::Lava, false), CartSlowdown::Air);
    assert_eq!(cart_slowdown(MinecartKind::Chest, false, false, true, GroundBlock::Lava, true), CartSlowdown::Ground);
    assert_eq!(driver_thrust(true, true, true, true), Thrust::Forward);
    assert_eq!(driver_thrust(true, true, false, true), Thrust::Backward);
    assert_eq!(driver_thrust(true, false, true, false), Thrust::Coast);
    assert_eq!(driver_thrust(false, true, true, false), Thrust::Coast);
}

#[test]
fn pushes_between_carts_follow_the_furnace_cart() {
    let base = PushFacts {
        no_clip: false,
        riding: false,
        close_enough: true,
        aligned: true,
        self_furnace: false,
        self_has_passengers: false,
        partner: PushPartner::Cart { furnace: true },
    };
    assert_eq!(push_plan(base), PushPlan::Carts(CartLead::Other));
    assert_eq!(push_plan(PushFacts { self_furnace: true, ..base }), PushPlan::Carts(CartLead::Shared));
    assert_eq!(
        push_plan(PushFacts { self_furnace: true, partner: PushPartner::Cart { furnace: false }, ..base }),
        PushPlan::Carts(CartLead::This)
    );
    assert_eq!(push_plan(PushFacts { aligned: false, ..base }), PushPlan::Ignore);
    assert_eq!(push_plan(PushFacts { riding: true, ..base }), PushPlan::Ignore);
    assert_eq!(push_plan(PushFacts { no_clip: true, ..base }), PushPlan::Ignore);
    assert_eq!(push_plan(PushFacts { close_enough: false, ..base }), PushPlan::Ignore);
    let entity = PushFacts {
        aligned: false,
        self_has_passengers: true,
        partner: PushPartner::Entity { pushable: true, has_passengers: false },
        ..base
    };
    assert_eq!(push_plan(entity), PushPlan::Nudge { move_cart: false, move_entity: true });
    assert_eq!(
        push_plan(PushFacts { self_has_passengers: false, partner: PushPartner::Entity { pushable: false, has_passengers: false }, ..entity }),
        PushPlan::Nudge { move_cart: true, move_entity: false }
    );
}

#[test]
fn test_break_door_goal_initialization() {
    let goal = BreakDoorGoal::new();
    assert_eq!(goal.break_progress, 0);
    assert_eq!(goal.last_break_progress, -1);
    assert_eq!(goal.door_break_time, 240);
    assert_eq!(goal.controls(), Controls::movement());
}

#[test]
fn test_door_interact_goal_initialization() {
    let goal = DoorInteractGoal::new();
    assert!(!goal.has_door);
    assert!(!goal.passed);
    assert_eq!(goal.controls(), Controls::empty());
}

fn pos(x: i32, y: i32, z: i32) -> BlockPos {
    BlockPos { x, y, z }
}

#[test]
fn mobs_look_for_doors_along_their_path_then_around_them() {
    let nodes = vec![pos(0, 64, 0), pos(1, 64, 0), pos(2, 64, 0), pos(3, 64, 0)];
    let c = door_candidates(&nodes, 1, true, pos(10, 70, 10));
    assert_eq!(c.len(), 6 + 10);
    assert_eq!(c[0], pos(0, 64, 0));
    assert_eq!(c[1], pos(0, 65, 0));
    assert_eq!(c[5], pos(2, 65, 0));
    assert_eq!(c[6], pos(10, 70, 10));
    assert_eq!(c[7], pos(10, 71, 10));
    assert_eq!(c[8], pos(11, 70, 10));
    assert_eq!(c[15], pos(10, 71, 9));
    let near_end = door_candidates(&nodes, 3, true, pos(0, 0, 0));
    assert_eq!(near_end.len(), 8 + 10);
    let off_path = door_candidates(&nodes, 0, false, pos(0, 0, 0));
    assert_eq!(off_path.len(), 10);
    let mut usable = vec![false; c.len()];
    assert_eq!(find_door_pos(&c, &usable), None);
    usable[7] = true;
    usable[9] = true;
    assert_eq!(find_door_pos(&c, &usable), Some(pos(10, 71, 10)));
}

#[test]
fn only_non_iron_doors_are_used_and_opened() {
    let tags = DoorTags { wooden_doors: true, mob_interactable_doors: false, doors: true };
    assert!(is_wooden_door(tags, false));
    assert!(!is_wooden_door(tags, true));
    assert!(!is_wooden_door(DoorTags { wooden_doors: false, mob_interactable_doors: false, doors: false }, false));
    assert!(is_door_open(true, true));
    assert!(!is_door_open(false, true));
    assert_eq!(other_half(pos(1, 65, 1), true), pos(1, 64, 1));
    assert_eq!(other_half(pos(1, 64, 1), false), pos(1, 65, 1));
    let mut goal = DoorInteractGoal::new();
    assert!(!goal.can_start(None));
    assert!(goal.can_start(Some(pos(4, 5, 6))));
    assert_eq!(goal.door_pos, pos(4, 5, 6));
    goal.start();
    assert!(goal.should_continue());
    goal.tick(false);
    assert!(goal.should_continue());
    goal.tick(true);
    assert!(!goal.should_continue());
}

#[test]
fn zombies_knock_every_twenty_ticks_and_break_the_door_on_hard() {
    let mut goal = BreakDoorGoal::with_break_time(40);
    assert!(!goal.can_start(true, false, true, Some((pos(1, 2, 3), false))));
    assert!(!goal.can_start(true, true, true, Some((pos(1, 2, 3), true))));
    assert!(!goal.door_interact.has_door);
    assert!(goal.can_start(true, true, true, Some((pos(1, 2, 3), false))));
    assert!(goal.door_interact.has_door);
    goal.start();
    let mut knocks = 0;
    let mut broke_at = None;
    for tick in 1..=40u32 {
        if goal.knock() {
            knocks += 1;
        }
        let step = goal.settle((goal.break_progress * 10 / 40).min(9) as i32, true);
        if step.break_door && broke_at.is_none() {
            broke_at = Some(tick);
        }
    }
    assert_eq!(knocks, 2);
    assert_eq!(broke_at, Some(40));
    assert_eq!(goal.last_break_progress, 9);
    assert_eq!(goal.settle(9, true), BreakStep { show_stage: false, break_door: true });
    assert_eq!(goal.settle(9, false), BreakStep { show_stage: false, break_door: false });
    assert!(goal.should_continue(true, true, true, false, true));
    goal.break_progress = 41;
    assert!(!goal.should_continue(true, true, true, false, true));
    goal.stop();
    assert_eq!(goal.break_progress, 0);
    assert_eq!(goal.last_break_progress, -1);
    assert!(!goal.door_interact.has_door);
}

#[test]
fn rockets_live_by_their_flight_duration_and_explode_by_their_shapes() {
    for _ in 0..50 {
        let plain = FireworkRocketEntity::new(1);
        assert!(plain.life_time >= 20 && plain.life_time <= 31);
        assert_eq!(plain.life, 0);
        let long = FireworkRocketEntity::new_with_item(2, Some(3), 2);
        assert!(long.life_time >= 40 && long.life_time <= 51);
        let capped = FireworkRocketEntity::new_shot_with_item(3, 9, Some(500), 0);
        assert!(capped.life_time >= 1280 && capped.life_time <= 1291);
        assert_eq!(capped.owner_id, Some(9));
    }
    let mut rocket = FireworkRocketEntity::new_shot(4, 7);
    assert_eq!(rocket.owner_id, Some(7));
    rocket.life_time = 2;
    assert!(!rocket.tick());
    assert!(!rocket.tick());
    assert!(!rocket.tick());
    assert!(rocket.tick());
    assert!(rocket.on_hit(true));
    assert!(!rocket.on_hit(false));
    assert!(!rocket.explosion_hurts());
    let shaped = FireworkRocketEntity::new_with_item(5, None, 1);
    assert!(shaped.on_hit(false));
    assert!(shaped.explosion_hurts());
    rocket.read_nbt(Some(-3), Some(25));
    assert_eq!(rocket.write_nbt(), (0, 25));
    rocket.read_nbt(None, None);
    assert_eq!(rocket.write_nbt(), (0, 25));
}

#[test]
fn falling_blocks_leave_their_fluid_behind() {
    assert_eq!(left_behind(SourceFluid::FlowingWater), LeftBehind::Water);
    assert_eq!(left_behind(SourceFluid::Lava), LeftBehind::Lava);
    assert_eq!(left_behind(SourceFluid::Empty), LeftBehind::Air);
    let (left, entity) = FallingEntity::replace_spawn(3, SourceFluid::Water, 77);
    assert_eq!(left, LeftBehind::Water);
    assert_eq!(entity, FallingEntity::new(3, 77));
}

#[test]
fn frames_face_south_unless_stored_otherwise_and_golems_lose_their_pumpkin_to_shears() {
    let mut frame = ItemFrameEntity::new(1);
    assert_eq!(frame.get_facing(), 3);
    frame.read_orientation(None, Some(4));
    assert_eq!(frame.get_facing(), 4);
    frame.facing = 9;
    assert_eq!(frame.get_facing(), 3);
    let mut golem = SnowGolemEntity::new();
    assert!(golem.has_pumpkin());
    golem.shear();
    assert!(!golem.has_pumpkin());
    assert!(!golem.interact(true));
}

#[test]
fn hopper_minecart_inventory_has_five_slots() {
    assert_eq!(HopperMinecart::new().inventory_size(), 5);
}

#[test]
fn hopper_carts_move_one_item_every_eight_ticks_while_enabled() {
    let mut cart = HopperMinecart::new();
    assert!(cart.begin_tick());
    cart.transferred();
    let mut waited = 0;
    while !cart.begin_tick() {
        waited += 1;
    }
    assert_eq!(waited, 8);
    cart.set_enabled(false);
    cart.transferred();
    assert!(!cart.begin_tick());
    assert_eq!(cart.transfer_cooldown, 8);
    cart.read_nbt(None, None);
    assert_eq!(cart.write_nbt(), (true, -1));
    cart.read_nbt(Some(false), Some(3));
    assert_eq!(cart.write_nbt(), (false, 3));
}

#[test]
fn snowballs_fly_once_per_interval_while_the_target_is_in_range() {
    assert_eq!(snowball_tick(0, 20, true), SnowballTick { cooldown: 20, shoot: true });
    assert_eq!(snowball_tick(0, 20, false), SnowballTick { cooldown: -1, shoot: false });
    assert_eq!(snowball_tick(5, 20, true), SnowballTick { cooldown: 4, shoot: false });
    let mut cooldown = 0;
    let mut shots = 0;
    for _ in 0..60 {
        let step = snowball_tick(cooldown, 20, true);
        cooldown = step.cooldown;
        if step.shoot {
            shots += 1;
        }
    }
    assert_eq!(shots, 3);
}

#[test]
fn cart_damage_breaks_lights_or_explodes_by_the_hit() {
    let facts = MinecartDamageFacts {
        kind: MinecartKind::Tnt,
        arrow: true,
        on_fire: true,
        alive: true,
        creative: false,
        damage_exceeds: true,
        fiery_damage: false,
        moving: false,
    };
    let plan = plan_minecart_damage(facts);
    assert!(plan.explode_first && plan.will_break && plan.light_tnt);
    let plan = plan_minecart_damage(MinecartDamageFacts { creative: true, on_fire: false, arrow: false, ..facts });
    assert!(!plan.explode_first && plan.will_break && !plan.light_tnt);
    let plan = plan_minecart_damage(MinecartDamageFacts { kind: MinecartKind::Chest, damage_exceeds: false, ..facts });
    assert!(!plan.explode_first && !plan.will_break && !plan.light_tnt);
    assert!(drops_after_damage(true, false, true, true));
    assert!(!drops_after_damage(true, true, true, true));
    assert!(!drops_after_damage(true, false, true, false));
    for _ in 0..50 {
        let fuse = tnt_fuse();
        assert!((0..=38).contains(&fuse));
    }
    assert_eq!(minecart_use(MinecartKind::Command, true), MinecartUse::Consumed);
    assert_eq!(minecart_use(MinecartKind::Command, false), MinecartUse::Refused);
    assert_eq!(minecart_use(MinecartKind::Furnace, false), MinecartUse::ByKind);
    assert_eq!(minecart_use(MinecartKind::Tnt, true), MinecartUse::Refused);
}

#[test]
fn orbs_coalesce_bottles_burst_and_skulls_need_mob_loot() {
    let mut orb = ExperienceOrbEntity::new(1, 7);
    orb.orb_age = 100;
    orb.coalesce_new();
    assert_eq!(orb.count, 2);
    assert_eq!(orb.orb_age, 0);
    assert_eq!(orb.amount, 7);
    let bottle = ExperienceBottleEntity::new(3);
    for _ in 0..50 {
        let xp = bottle.burst_experience();
        assert!((3..=11).contains(&xp));
    }
    assert!(WitherSkeletonEntity::drops_skull(true, true));
    assert!(!WitherSkeletonEntity::drops_skull(false, true));
    assert!(!WitherSkeletonEntity::drops_skull(true, false));
}

#[test]
fn stored_facing_and_pumpkin_read_back() {
    let mut painting = PaintingEntity::new(5, 2);
    assert_eq!(painting.facing_byte(), 2);
    painting.read_facing(Some(4));
    assert_eq!(painting.facing_byte(), 4);
    let mut golem = SnowGolemEntity::new();
    golem.read_pumpkin(Some(false));
    assert!(!golem.has_pumpkin());
    golem.read_pumpkin(None);
    assert!(!golem.has_pumpkin());
    golem.read_pumpkin(Some(true));
    assert!(golem.has_pumpkin());
}

#[test]
fn test_find_hide_pos_all_sky_visible() {
    let start_pos = BlockPos { x: 0, y: 64, z: 0 };
    let target = find_hide_pos(start_pos, |_: &BlockPos| true);
    assert!(target.is_none());
}

#[test]
fn test_find_hide_pos_safe_spot_found() {
    let start_pos = BlockPos { x: 0, y: 64, z: 0 };
    let target = find_hide_pos(start_pos, |_: &BlockPos| false);
    assert!(target.is_some());
    let block = target.unwrap();
    let pos = (f64::from(block.x) + 0.5, f64::from(block.y), f64::from(block.z) + 0.5);
    assert!((pos.0 - 0.5).abs() <= 10.0);
    assert!((pos.1 - 64.0).abs() <= 3.0);
    assert!((pos.2 - 0.5).abs() <= 10.0);
}

#[test]
fn burning_mobs_flee_the_sun_only_in_daylight_without_a_target_or_helmet() {
    assert!(flee_sun_applies(false, true, true, true, true));
    assert!(!flee_sun_applies(true, true, true, true, true));
    assert!(!flee_sun_applies(false, false, true, true, true));
    assert!(!flee_sun_applies(false, true, false, true, true));
    assert!(!flee_sun_applies(false, true, true, false, true));
    assert!(!flee_sun_applies(false, true, true, true, false));
    for _ in 0..20 {
        let shade = BlockPos { x: 5, y: 60, z: -3 };
        let found = find_hide_pos(BlockPos { x: 0, y: 64, z: 0 }, |p: &BlockPos| *p != shade);
        if let Some(p) = found {
            assert_eq!(p, shade);
        }
    }
}

#[test]
fn carts_take_their_kind_from_the_entity_type_and_report_to_detector_rails() {
    let mut command = MinecartEntity::new(1, MinecartType::CommandBlockMinecart);
    assert_eq!(command.kind, MinecartKind::Command);
    assert!(command.command.is_some() && command.hopper.is_none());
    command.set_command("/say hi", false);
    let state = command.command.as_mut().unwrap();
    assert_eq!(state.command, "say hi");
    state.success_count = 20;
    assert_eq!(command.detector_rail_comparator_output(3), Some(15));
    let hopper = MinecartEntity::new(2, MinecartType::HopperMinecart);
    assert_eq!(hopper.hopper, Some(HopperMinecart::new()));
    assert_eq!(hopper.detector_rail_comparator_output(3), Some(3));
    let mut plain = MinecartEntity::new(3, MinecartType::Minecart);
    assert_eq!(plain.kind, MinecartKind::Rideable);
    assert_eq!(plain.detector_rail_comparator_output(3), None);
    plain.set_command("x", true);
    assert!(plain.command.is_none());
    assert_eq!(MinecartEntity::new(4, MinecartType::ChestMinecart).detector_rail_comparator_output(7), Some(7));
}

#[test]
fn deferred_cart_loot_is_kept_until_a_table_can_be_rolled() {
    let mut loot = CartLoot::new();
    assert!(!loot.read_nbt(Some("chests/abandoned_mineshaft".to_owned()), Some(42)));
    assert_eq!(loot.write_nbt(), Some(("chests/abandoned_mineshaft".to_owned(), Some(42))));
    let (table, key, seed) = loot.take_table().expect("deferred table");
    assert_eq!(key, "minecraft:chests/abandoned_mineshaft");
    assert_eq!(seed, 42);
    assert_eq!(loot.write_nbt(), None);
    assert_eq!(loot.unpack_source(table.clone(), seed, false, false), LootSource::Deferred);
    assert_eq!(loot.loot_table, Some((table.clone(), 42)));
    assert_eq!(loot.unpack_source(table.clone(), seed, true, true), LootSource::Datapack);
    assert_eq!(loot.unpack_source(table, seed, false, true), LootSource::BuiltIn);
    assert!(loot.read_nbt(None, Some(7)));
    assert_eq!(loot.loot_table, None);
    loot.read_nbt(Some("example:t".to_owned()), None);
    assert_eq!(loot.write_nbt(), Some(("example:t".to_owned(), None)));
    assert!(loot.claim_drops());
    assert!(!loot.claim_drops());
}

#[test]
fn wolves_help_their_owner_but_not_against_itself_creepers_or_ghasts() {
    assert!(WolfEntity::can_attack_with_owner(5, 9, false));
    assert!(!WolfEntity::can_attack_with_owner(9, 9, false));
    assert!(!WolfEntity::can_attack_with_owner(5, 9, true));
}

#[test]
fn hiding_place_is_the_first_shaded_candidate_in_draw_order() {
    let pos = BlockPos { x: 0, y: 64, z: 0 };
    let offsets = [(1, 0, 0), (2, 1, -3), (-4, -2, 5)];
    let shade = |p: &BlockPos| !(p.x == 2 || p.x == -4);
    assert_eq!(hide_pos_from_offsets(pos, &offsets, shade), Some(BlockPos { x: 2, y: 65, z: -3 }));
    assert_eq!(hide_pos_from_offsets(pos, &offsets, |_: &BlockPos| true), None);
    assert_eq!(hide_pos_from_offsets(pos, &offsets, |_: &BlockPos| false), Some(BlockPos { x: 1, y: 64, z: 0 }));
    assert_eq!(hide_pos_from_offsets(pos, &[], |_: &BlockPos| false), None);
}

#[test]
fn tnt_fuse_adds_the_two_draws() {
    assert_eq!(tnt_fuse_from(0, 0), 0);
    assert_eq!(tnt_fuse_from(7, 12), 19);
    assert_eq!(tnt_fuse_from(19, 19), 38);
}

#[test]
fn experience_spawns_as_the_largest_orbs_that_fit() {
    assert_eq!(ExperienceOrbEntity::orb_values(1000), vec![617, 307, 73, 3]);
    assert_eq!(ExperienceOrbEntity::orb_values(1), vec![1]);
    assert_eq!(ExperienceOrbEntity::orb_values(10), vec![7, 3]);
}
