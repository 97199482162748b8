//! Item behaviour decisions: name tags, firework rockets and tridents.
use vstd::prelude::*;

verus! {

/// A name tag applies to a saveable living entity that is alive, and only
/// when the tag carries a name.
pub open spec fn name_tag_applies(saveable: bool, living: bool, alive: bool, has_name: bool) -> bool {
    saveable && living && alive && has_name
}

/// What using a name tag on an entity does.
#[derive(Clone, Copy, Debug, PartialEq, Eq, Structural)]
pub struct NameTagUse {
    /// The entity takes the tag's name.
    pub rename: bool,
    /// The entity is made persistent (mobs only).
    pub make_persistent: bool,
    /// One tag is used up (unless the player is creative).
    pub consume: bool,
}

/// Whether a name tag applies.
pub fn name_tag_can_apply(saveable: bool, living: bool, alive: bool, has_name: bool) -> (r: bool)
    ensures
        r == name_tag_applies(saveable, living, alive, has_name),
{
    saveable && living && alive && has_name
}

/// The name tag item.
pub struct NameTagItem;

impl NameTagItem {
    /// Using a name tag: a tag that applies renames the entity, makes a mob
    /// persistent, and is used up.
    pub fn use_on_entity(saveable: bool, living: bool, alive: bool, has_name: bool, is_mob: bool) -> (r:
        NameTagUse)
        ensures
            r == (NameTagUse {
                rename: name_tag_applies(saveable, living, alive, has_name),
                make_persistent: name_tag_applies(saveable, living, alive, has_name) && is_mob,
                consume: name_tag_applies(saveable, living, alive, has_name),
            }),
    {
        let applies = name_tag_can_apply(saveable, living, alive, has_name);
        NameTagUse { rename: applies, make_persistent: applies && is_mob, consume: applies }
    }
}

/// The firework rocket item.
pub struct FireworkRocketItem;

impl FireworkRocketItem {
    /// Placing a rocket on a block spawns it, except while the player is
    /// gliding (that use boosts the elytra instead).
    pub fn places_on_block(player_fall_flying: bool) -> (r: bool)
        ensures
            r == !player_fall_flying,
    {
        !player_fall_flying
    }

    /// Using a rocket in the air boosts only a gliding player.
    pub fn boosts(player_fall_flying: bool) -> (r: bool)
        ensures
            r == player_fall_flying,
    {
        player_fall_flying
    }
}

/// The ticks a trident use lasts before it times out.
pub const TRIDENT_USE_TICKS: i32 = 72000;

/// What releasing a trident does.
#[derive(Clone, Copy, Debug, PartialEq, Eq, Structural)]
pub enum TridentRelease {
    /// Released too early: nothing happens.
    TooShort,
    /// The trident would break: the use is cancelled.
    WouldBreak,
    /// Riptide out of water and rain, or while riding: the use is cancelled.
    RiptideBlocked,
    /// A riptide launch; `sound` is the riptide sound level (1 to 3).
    Riptide { sound: u32 },
    /// The trident is thrown.
    Throw,
}

/// The hand emptied after a trident is thrown.
#[derive(Clone, Copy, Debug, PartialEq, Eq, Structural)]
pub enum TridentHand {
    /// The selected hotbar slot.
    MainHand,
    OffHand,
}

/// The ticks a riptide launch spins its player.
pub const RIPTIDE_SPIN_TICKS: i32 = 20;

/// What a riptide launch does besides setting the player's velocity.
#[derive(Clone, Copy, Debug, PartialEq, Eq, Structural)]
pub struct RiptideLaunch {
    /// Ticks of spin attack.
    pub spin_ticks: i32,
    /// Damage dealt to the trident.
    pub item_damage: i32,
    /// A grounded player also gets the upward impulse.
    pub upward_impulse: bool,
}

/// The trident item.
pub struct TridentItem;

impl TridentItem {
    /// Starting to use a trident is refused when its next damage breaks it,
    /// or when it has riptide but the player is out of water and rain or
    /// rides a vehicle.
    pub fn can_start_using(next_damage_breaks: bool, has_riptide: bool, in_water_or_rain: bool, has_vehicle: bool) -> (r: bool)
        ensures
            r == (!next_damage_breaks && !(has_riptide && (!in_water_or_rain || has_vehicle))),
    {
        if next_damage_breaks {
            return false;
        }
        if has_riptide && (!in_water_or_rain || has_vehicle) {
            return false;
        }
        true
    }

    /// The launch of a riptide release: twenty ticks of spin attack, one
    /// point of damage to the trident, and the upward impulse for a player
    /// on the ground.
    pub fn riptide_launch(on_ground: bool) -> (r: RiptideLaunch)
        ensures
            r == (RiptideLaunch { spin_ticks: RIPTIDE_SPIN_TICKS, item_damage: 1, upward_impulse: on_ground }),
    {
        RiptideLaunch { spin_ticks: RIPTIDE_SPIN_TICKS, item_damage: 1, upward_impulse: on_ground }
    }

    /// The hand emptied after a throw: none in creative mode; else the main
    /// hand when it holds a trident, else the off hand when it does.
    pub fn emptied_hand_after_throw(creative: bool, main_hand_trident: bool, off_hand_trident: bool) -> (r:
        Option<TridentHand>)
        ensures
            r == (if creative {
                None
            } else if main_hand_trident {
                Some(TridentHand::MainHand)
            } else if off_hand_trident {
                Some(TridentHand::OffHand)
            } else {
                None
            }),
    {
        if creative {
            None
        } else if main_hand_trident {
            Some(TridentHand::MainHand)
        } else if off_hand_trident {
            Some(TridentHand::OffHand)
        } else {
            None
        }
    }

    /// What releasing the trident does, `remaining` ticks before the use
    /// would time out: a use of under ten ticks does nothing.
    pub fn release(
        remaining: i32,
        next_damage_breaks: bool,
        riptide_level: u32,
        in_water_or_rain: bool,
        has_vehicle: bool,
    ) -> (r: TridentRelease)
        requires
            remaining >= TRIDENT_USE_TICKS - i32::MAX,
        ensures
            r == (if TRIDENT_USE_TICKS - remaining < 10 {
                TridentRelease::TooShort
            } else if next_damage_breaks {
                TridentRelease::WouldBreak
            } else if riptide_level > 0 {
                if !in_water_or_rain || has_vehicle {
                    TridentRelease::RiptideBlocked
                } else {
                    TridentRelease::Riptide {
                        sound: if riptide_level == 1 {
                            1
                        } else if riptide_level == 2 {
                            2
                        } else {
                            3
                        },
                    }
                }
            } else {
                TridentRelease::Throw
            }),
    {
        let used = TRIDENT_USE_TICKS - remaining;
        if used < 10 {
            return TridentRelease::TooShort;
        }
        if next_damage_breaks {
            return TridentRelease::WouldBreak;
        }
        if riptide_level > 0 {
            if !in_water_or_rain || has_vehicle {
                return TridentRelease::RiptideBlocked;
            }
            let sound = if riptide_level == 1 {
                1
            } else if riptide_level == 2 {
                2
            } else {
                3
            };
            return TridentRelease::Riptide { sound };
        }
        TridentRelease::Throw
    }
}

} // verus!
