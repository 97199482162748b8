use pumpkin::items::{
    FireworkRocketItem, NameTagItem, RiptideLaunch, TridentHand, TridentItem, TridentRelease, name_tag_can_apply,
};

#[test]
fn name_tags_require_a_live_serializable_living_entity_and_name() {
    assert!(name_tag_can_apply(true, true, true, true));
    assert!(!name_tag_can_apply(false, true, true, true));
    assert!(!name_tag_can_apply(true, false, true, true));
    assert!(!name_tag_can_apply(true, true, false, true));
    assert!(!name_tag_can_apply(true, true, true, false));
}

#[test]
fn successful_mob_name_tag_path_is_the_persistence_boundary() {
    // The persistence flag lives on the entity; this table pins the vanilla
    // gate used before making a mob persistent.
    assert!(name_tag_can_apply(true, true, true, true));
    let used = NameTagItem::use_on_entity(true, true, true, true, true);
    assert!(used.rename && used.make_persistent && used.consume);
    let refused = NameTagItem::use_on_entity(true, true, false, true, true);
    assert!(!refused.rename && !refused.make_persistent && !refused.consume);
}

#[test]
fn trident_release_follows_riptide_rules() {
    assert_eq!(TridentItem::release(71995, false, 0, false, false), TridentRelease::TooShort);
    assert_eq!(TridentItem::release(71000, false, 0, false, false), TridentRelease::Throw);
    assert_eq!(TridentItem::release(71000, true, 0, false, false), TridentRelease::WouldBreak);
    assert_eq!(TridentItem::release(71000, false, 2, true, false), TridentRelease::Riptide { sound: 2 });
    assert_eq!(TridentItem::release(71000, false, 5, true, false), TridentRelease::Riptide { sound: 3 });
    assert_eq!(TridentItem::release(71000, false, 1, false, false), TridentRelease::RiptideBlocked);
    assert!(!TridentItem::can_start_using(false, true, false, false));
    assert!(TridentItem::can_start_using(false, true, true, false));
}

#[test]
fn rockets_are_placed_on_foot_and_boost_gliders() {
    assert!(FireworkRocketItem::places_on_block(false));
    assert!(!FireworkRocketItem::places_on_block(true));
    assert!(FireworkRocketItem::boosts(true));
    assert!(!FireworkRocketItem::boosts(false));
}

#[test]
fn a_thrown_trident_leaves_the_hand_that_held_it() {
    assert_eq!(TridentItem::emptied_hand_after_throw(true, true, true), None);
    assert_eq!(TridentItem::emptied_hand_after_throw(false, true, true), Some(TridentHand::MainHand));
    assert_eq!(TridentItem::emptied_hand_after_throw(false, false, true), Some(TridentHand::OffHand));
    assert_eq!(TridentItem::emptied_hand_after_throw(false, false, false), None);
}

#[test]
fn a_riptide_launch_spins_and_damages_the_trident() {
    assert_eq!(
        TridentItem::riptide_launch(true),
        RiptideLaunch { spin_ticks: 20, item_damage: 1, upward_impulse: true }
    );
    assert!(!TridentItem::riptide_launch(false).upward_impulse);
}
