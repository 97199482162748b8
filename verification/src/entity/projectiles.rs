//! Projectiles: wither skulls and firework rockets.
use vstd::prelude::*;

use crate::random::random_below;

verus! {

/// The ticks of wither a skull's hit gives.
pub const WITHER_EFFECT_DURATION: i32 = 800;

/// A wither skull and the entity that shot it, if any.
#[derive(Clone, Copy, Debug, PartialEq, Eq, Structural)]
pub struct WitherSkullEntity {
    pub entity_id: i32,
    pub owner_id: Option<i32>,
}

impl WitherSkullEntity {
    /// A skull without a shooter.
    pub fn new(entity_id: i32) -> (r: WitherSkullEntity)
        ensures
            r == (WitherSkullEntity { entity_id, owner_id: None }),
    {
        WitherSkullEntity { entity_id, owner_id: None }
    }

    /// A skull shot by `shooter_id`.
    pub fn new_shot(entity_id: i32, shooter_id: i32) -> (r: WitherSkullEntity)
        ensures
            r == (WitherSkullEntity { entity_id, owner_id: Some(shooter_id) }),
    {
        WitherSkullEntity { entity_id, owner_id: Some(shooter_id) }
    }

    /// The wither a hit target receives: 800 ticks when it is living, none
    /// otherwise.
    pub fn wither_duration(target_living: bool) -> (r: Option<i32>)
        ensures
            r == (if target_living {
                Some(WITHER_EFFECT_DURATION)
            } else {
                None
            }),
    {
        if target_living {
            Some(WITHER_EFFECT_DURATION)
        } else {
            None
        }
    }
}

/// The flight duration a rocket flies with: the item's `fireworks`
/// component bounded to 0..=127, or 1 without one.
pub open spec fn flight_duration_of(component: Option<i32>) -> int {
    match component {
        Some(d) => if d < 0 {
            0
        } else if d > 127 {
            127
        } else {
            d as int
        },
        None => 1,
    }
}

/// The ticks a rocket flies: ten per flight-duration step plus ten, plus
/// the two random extras.
pub open spec fn lifetime_of(flight_duration: i32, random_a: u32, random_b: u32) -> int {
    10 * (flight_duration_of(Some(flight_duration)) + 1) + random_a + random_b
}

/// The flight duration of a rocket stack.
pub fn firework_flight_duration(component: Option<i32>) -> (r: i32)
    ensures
        r == flight_duration_of(component),
{
    match component {
        Some(d) => if d < 0 {
            0
        } else if d > 127 {
            127
        } else {
            d
        },
        None => 1,
    }
}

/// The lifetime of a rocket of flight duration `flight_duration`, with the
/// two random extras (below 6 and below 7 in vanilla).
pub fn firework_lifetime(flight_duration: i32, random_a: u32, random_b: u32) -> (r: u32)
    requires
        random_a + random_b <= u32::MAX - 1280,
    ensures
        r == lifetime_of(flight_duration, random_a, random_b),
{
    let d = firework_flight_duration(Some(flight_duration)) as u32;
    10 * (d + 1) + random_a + random_b
}

/// A firework rocket: the entity it boosts (a gliding player that shot
/// it), what its item says (the `fireworks` flight duration, when the item
/// has the component, and its number of explosion shapes), and its age and
/// lifetime in ticks.
#[derive(Clone, Copy, Debug, PartialEq, Eq, Structural)]
pub struct FireworkRocketEntity {
    pub entity_id: i32,
    pub owner_id: Option<i32>,
    pub flight_component: Option<i32>,
    pub explosion_count: u32,
    pub life: u32,
    pub life_time: u32,
}

/// The lifetimes a rocket with this `fireworks` component may draw: ten per
/// flight-duration step plus ten, plus up to 5 and up to 6 more.
pub open spec fn possible_lifetime(component: Option<i32>, life_time: u32) -> bool {
    let base = 10 * (flight_duration_of(component) + 1);
    base <= life_time <= base + 11
}

impl FireworkRocketEntity {
    fn launched(entity_id: i32, owner_id: Option<i32>, flight_component: Option<i32>, explosion_count: u32) -> (r:
        FireworkRocketEntity)
        ensures
            r.entity_id == entity_id,
            r.owner_id == owner_id,
            r.flight_component == flight_component,
            r.explosion_count == explosion_count,
            r.life == 0,
            possible_lifetime(flight_component, r.life_time),
    {
        let duration = firework_flight_duration(flight_component);
        let a = random_below(6) as u32;
        let b = random_below(7) as u32;
        FireworkRocketEntity {
            entity_id,
            owner_id,
            flight_component,
            explosion_count,
            life: 0,
            life_time: firework_lifetime(duration, a, b),
        }
    }

    /// A plain rocket (no component, no explosion) launched from a block.
    pub fn new(entity_id: i32) -> (r: FireworkRocketEntity)
        ensures
            r.entity_id == entity_id,
            r.owner_id is None,
            r.flight_component is None,
            r.explosion_count == 0,
            r.life == 0,
            possible_lifetime(None, r.life_time),
    {
        Self::launched(entity_id, None, None, 0)
    }

    /// A rocket launched from a block with the given item.
    pub fn new_with_item(entity_id: i32, flight_component: Option<i32>, explosion_count: u32) -> (r:
        FireworkRocketEntity)
        ensures
            r.entity_id == entity_id,
            r.owner_id is None,
            r.flight_component == flight_component,
            r.explosion_count == explosion_count,
            r.life == 0,
            possible_lifetime(flight_component, r.life_time),
    {
        Self::launched(entity_id, None, flight_component, explosion_count)
    }

    /// A plain rocket shot by a gliding entity, which it boosts.
    pub fn new_shot(entity_id: i32, shooter_id: i32) -> (r: FireworkRocketEntity)
        ensures
            r.entity_id == entity_id,
            r.owner_id == Some(shooter_id),
            r.flight_component is None,
            r.explosion_count == 0,
            r.life == 0,
            possible_lifetime(None, r.life_time),
    {
        Self::launched(entity_id, Some(shooter_id), None, 0)
    }

    /// A rocket with the given item shot by a gliding entity.
    pub fn new_shot_with_item(
        entity_id: i32,
        shooter_id: i32,
        flight_component: Option<i32>,
        explosion_count: u32,
    ) -> (r: FireworkRocketEntity)
        ensures
            r.entity_id == entity_id,
            r.owner_id == Some(shooter_id),
            r.flight_component == flight_component,
            r.explosion_count == explosion_count,
            r.life == 0,
            possible_lifetime(flight_component, r.life_time),
    {
        Self::launched(entity_id, Some(shooter_id), flight_component, explosion_count)
    }

    /// One tick of age: the rocket explodes when its age before the tick
    /// already exceeded its lifetime.
    pub fn tick(&mut self) -> (explode: bool)
        ensures
            explode == (old(self).life > old(self).life_time),
            final(self).life == (if old(self).life < u32::MAX {
                old(self).life + 1
            } else {
                0
            }),
            final(self).life_time == old(self).life_time,
            final(self).owner_id == old(self).owner_id,
            final(self).explosion_count == old(self).explosion_count,
    {
        let current = self.life;
        self.life = if current < u32::MAX {
            current + 1
        } else {
            0
        };
        current > self.life_time
    }

    /// A rocket explodes when it hits an entity, and when it hits a block
    /// only if it carries an explosion shape.
    pub fn on_hit(&self, hit_entity: bool) -> (explode: bool)
        ensures
            explode == (hit_entity || self.explosion_count > 0),
    {
        hit_entity || self.explosion_count > 0
    }

    /// Whether the explosion hurts the living entities around it: only a
    /// rocket with an explosion shape does.
    pub fn explosion_hurts(&self) -> (r: bool)
        ensures
            r == (self.explosion_count > 0),
    {
        self.explosion_count > 0
    }

    /// The stored age and lifetime (`Life`, `LifeTime`).
    pub fn write_nbt(&self) -> (r: (i32, i32))
        ensures
            r == (self.life as i32, self.life_time as i32),
    {
        (self.life as i32, self.life_time as i32)
    }

    /// Reads `Life` (missing or negative as 0) and `LifeTime` (kept when
    /// missing, negative as 0).
    pub fn read_nbt(&mut self, life: Option<i32>, life_time: Option<i32>)
        ensures
            final(self).life == (match life {
                Some(n) => if n > 0 {
                    n as int
                } else {
                    0
                },
                None => 0,
            }),
            final(self).life_time == (match life_time {
                Some(n) => if n > 0 {
                    n as int
                } else {
                    0
                },
                None => old(self).life_time as int,
            }),
            final(self).owner_id == old(self).owner_id,
            final(self).explosion_count == old(self).explosion_count,
    {
        self.life = match life {
            Some(n) => if n > 0 {
                n as u32
            } else {
                0
            },
            None => 0,
        };
        if let Some(n) = life_time {
            self.life_time = if n > 0 {
                n as u32
            } else {
                0
            };
        }
    }
}

} // verus!
