//! Entity predicates: the filters that goals and targeting apply to
//! candidate entities.
use vstd::prelude::*;

verus! {

/// The melee-target filter: players in creative or spectator mode are
/// excluded; every other entity passes.
pub open spec fn except_creative_or_spectator_of(is_player: bool, is_spectator: bool, is_creative: bool) -> bool {
    !is_player || (!is_spectator && !is_creative)
}

/// Whether an entity passes the melee-target filter.
pub fn except_creative_or_spectator(is_player: bool, is_spectator: bool, is_creative: bool) -> (r:
    bool)
    ensures
        r == except_creative_or_spectator_of(is_player, is_spectator, is_creative),
{
    !is_player || (!is_spectator && !is_creative)
}

/// What the predicates read of a candidate entity.
pub struct EntityFacts {
    pub alive: bool,
    pub living: bool,
    pub has_passengers: bool,
    pub has_vehicle: bool,
    /// A chest or hopper minecart.
    pub container_minecart: bool,
    pub is_player: bool,
    pub spectator: bool,
    pub creative: bool,
    pub collidable: bool,
    pub can_hit: bool,
    /// The ids of the vehicles it rides, innermost first.
    pub vehicles: Vec<i32>,
}

/// A filter over entities.
#[derive(Clone, Copy, Debug, PartialEq, Eq, Structural)]
pub enum EntityPredicate {
    ValidEntity,
    ValidLivingEntity,
    NotMounted,
    ValidInventories,
    ExceptCreativeOrSpectator,
    ExceptSpectator,
    CanCollide,
    CanHit,
    /// Holds of entities that do not ride (directly or through other
    /// vehicles) the entity with this id.
    Rides(i32),
}

/// Whether `p` holds of an entity with facts `f` (its vehicle chain given
/// as `vehicles`).
pub open spec fn predicate_holds(p: EntityPredicate, f: EntityFacts, vehicles: Seq<i32>) -> bool {
    match p {
        EntityPredicate::ValidEntity => f.alive,
        EntityPredicate::ValidLivingEntity => f.alive && f.living,
        EntityPredicate::NotMounted => f.alive && !f.has_passengers && !f.has_vehicle,
        EntityPredicate::ValidInventories => f.alive && f.container_minecart,
        EntityPredicate::ExceptCreativeOrSpectator => except_creative_or_spectator_of(
            f.is_player,
            f.spectator,
            f.creative,
        ),
        EntityPredicate::ExceptSpectator => !f.spectator,
        EntityPredicate::CanCollide => !f.spectator && f.collidable,
        EntityPredicate::CanHit => !f.spectator && f.can_hit,
        EntityPredicate::Rides(target) => !vehicles.contains(target),
    }
}

impl EntityPredicate {
    /// Whether the predicate holds of the entity.
    pub fn test(&self, facts: &EntityFacts) -> (r: bool)
        ensures
            r == predicate_holds(*self, *facts, facts.vehicles@),
    {
        match self {
            EntityPredicate::ValidEntity => facts.alive,
            EntityPredicate::ValidLivingEntity => facts.alive && facts.living,
            EntityPredicate::NotMounted => facts.alive && !facts.has_passengers && !facts.has_vehicle,
            EntityPredicate::ValidInventories => facts.alive && facts.container_minecart,
            EntityPredicate::ExceptCreativeOrSpectator => except_creative_or_spectator(
                facts.is_player,
                facts.spectator,
                facts.creative,
            ),
            EntityPredicate::ExceptSpectator => !facts.spectator,
            EntityPredicate::CanCollide => !facts.spectator && facts.collidable,
            EntityPredicate::CanHit => !facts.spectator && facts.can_hit,
            EntityPredicate::Rides(target) => {
                let mut i: usize = 0;
                while i < facts.vehicles.len()
                    invariant
                        i <= facts.vehicles.len(),
                        forall|j: int| 0 <= j < i ==> facts.vehicles@[j] != *target,
                        *self == EntityPredicate::Rides(*target),
                    decreases facts.vehicles.len() - i,
                {
                    if facts.vehicles[i] == *target {
                        assert(facts.vehicles@[i as int] == *target);
                        return false;
                    }
                    i = i + 1;
                }
                true
            },
        }
    }
}

} // verus!
