//! Decorations: end crystals and paintings, and what hitting them does.
use vstd::prelude::*;

verus! {

/// What damaging an end crystal does.
#[derive(Clone, Copy, Debug, PartialEq, Eq, Structural)]
pub enum CrystalDamage {
    /// The damage is refused.
    Ignored,
    /// The crystal is destroyed; `explode` says whether it blows up (it
    /// does not when the damage was itself an explosion).
    Destroyed { explode: bool },
}

/// An end crystal.
#[derive(Clone, Copy, Debug, PartialEq, Eq, Structural)]
pub struct EndCrystalEntity {
    pub entity_id: i32,
}

impl EndCrystalEntity {
    pub fn new(entity_id: i32) -> (r: EndCrystalEntity)
        ensures
            r.entity_id == entity_id,
    {
        EndCrystalEntity { entity_id }
    }

    /// A crystal that is already removed, invulnerable to the damage type,
    /// or hit by the ender dragon ignores the damage; otherwise it is
    /// destroyed and, unless the damage was an explosion, explodes.
    pub fn damage_outcome(
        &self,
        removed: bool,
        invulnerable: bool,
        attacker_is_dragon: bool,
        explosion_damage: bool,
    ) -> (r: CrystalDamage)
        ensures
            r == (if removed || invulnerable || attacker_is_dragon {
                CrystalDamage::Ignored
            } else {
                CrystalDamage::Destroyed { explode: !explosion_damage }
            }),
    {
        if removed || invulnerable || attacker_is_dragon {
            CrystalDamage::Ignored
        } else {
            CrystalDamage::Destroyed { explode: !explosion_damage }
        }
    }
}

/// The facing a painting reads when its tag has none.
pub const DEFAULT_PAINTING_FACING: i32 = 3;

/// A painting and its facing.
#[derive(Clone, Copy, Debug, PartialEq, Eq, Structural)]
pub struct PaintingEntity {
    pub entity_id: i32,
    pub facing: i32,
}

impl PaintingEntity {
    pub fn new(entity_id: i32, facing: i32) -> (r: PaintingEntity)
        ensures
            r == (PaintingEntity { entity_id, facing }),
    {
        PaintingEntity { entity_id, facing }
    }

    /// The `facing` byte that is stored (the low byte of the facing).
    pub fn facing_byte(&self) -> (r: i8)
        ensures
            r == self.facing as i8,
    {
        self.facing as i8
    }

    /// Reads `facing`: a missing tag means 3.
    pub fn read_facing(&mut self, stored: Option<i8>)
        ensures
            final(self).entity_id == old(self).entity_id,
            final(self).facing == (match stored {
                Some(b) => b as int,
                None => DEFAULT_PAINTING_FACING as int,
            }),
    {
        self.facing = match stored {
            Some(b) => b as i32,
            None => DEFAULT_PAINTING_FACING,
        };
    }

    /// Hitting a painting that still hangs breaks it (the result is `Some`);
    /// the inner flag says whether a painting item drops: under the
    /// `doEntityDrops` rule, unless a creative player broke it.
    pub fn damage_outcome(
        &self,
        removed: bool,
        entity_drops: bool,
        attacker_is_player: bool,
        attacker_is_creative: bool,
    ) -> (r: Option<bool>)
        ensures
            r == (if removed {
                None
            } else {
                Some(entity_drops && !(attacker_is_player && attacker_is_creative))
            }),
    {
        if removed {
            None
        } else {
            Some(entity_drops && !(attacker_is_player && attacker_is_creative))
        }
    }
}

/// The facing a new item frame has: south (index 3).
pub const DEFAULT_FRAME_FACING: u8 = 3;

/// What damaging an item frame does.
#[derive(Clone, Copy, Debug, PartialEq, Eq, Structural)]
pub enum FrameDamage {
    /// The damage is refused.
    Ignored,
    /// The displayed item pops off; `drop` says whether it drops as an item.
    PopItem { drop: bool },
    /// The frame breaks; it drops as an item when `drop_frame`, and its
    /// displayed item drops when `drop_item`.
    Break { drop_frame: bool, drop_item: bool },
}

/// An item frame: whether it shows an item, the item's rotation (0 to 7),
/// its facing (0 to 5), and its invisible and fixed flags.
#[derive(Clone, Copy, Debug, PartialEq, Eq, Structural)]
pub struct ItemFrameEntity {
    pub entity_id: i32,
    pub has_item: bool,
    pub rotation: u8,
    pub facing: u8,
    pub invisible: bool,
    pub fixed: bool,
}

/// What hitting an item frame decides: a removed frame, or a fixed one hit
/// by anything but a kill or the void and not by a creative player, ignores
/// it; a loose frame that shows an item loses the item unless the hit is an
/// explosion; otherwise the frame breaks, dropping itself (and, when the
/// drop-chance roll passes, its item) under `doEntityDrops`, unless it is
/// fixed or a creative player broke it.
pub open spec fn frame_damage_of(
    frame: ItemFrameEntity,
    removed: bool,
    bypasses_fixed: bool,
    creative: bool,
    explosion: bool,
    entity_drops: bool,
    item_roll_passes: bool,
) -> FrameDamage {
    if removed || (frame.fixed && !bypasses_fixed && !creative) {
        FrameDamage::Ignored
    } else if !frame.fixed && !explosion && frame.has_item {
        FrameDamage::PopItem { drop: entity_drops && !creative }
    } else {
        let drops = entity_drops && !creative && !frame.fixed;
        FrameDamage::Break { drop_frame: drops, drop_item: drops && frame.has_item && item_roll_passes }
    }
}

impl ItemFrameEntity {
    /// An empty frame facing south.
    pub fn new(entity_id: i32) -> (r: ItemFrameEntity)
        ensures
            r == (ItemFrameEntity {
                entity_id,
                has_item: false,
                rotation: 0,
                facing: DEFAULT_FRAME_FACING,
                invisible: false,
                fixed: false,
            }),
    {
        ItemFrameEntity {
            entity_id,
            has_item: false,
            rotation: 0,
            facing: DEFAULT_FRAME_FACING,
            invisible: false,
            fixed: false,
        }
    }

    /// The direction the frame faces, as a block-direction index (down, up,
    /// north, south, west, east); an index out of range reads as south.
    pub fn get_facing(&self) -> (r: u8)
        ensures
            r == (if self.facing < 6 {
                self.facing
            } else {
                DEFAULT_FRAME_FACING
            }),
    {
        if self.facing < 6 {
            self.facing
        } else {
            DEFAULT_FRAME_FACING
        }
    }

    /// The comparator signal: 0 when empty, else the rotation plus one.
    pub fn get_analog_output(&self) -> (r: u8)
        ensures
            r == (if self.has_item {
                self.rotation % 8 + 1
            } else {
                0
            }),
    {
        if self.has_item {
            self.rotation % 8 + 1
        } else {
            0
        }
    }

    /// Reads `ItemRotation` and `Facing` bytes (missing means 0), keeping
    /// the rotation below 8 and the facing below 6.
    pub fn read_orientation(&mut self, rotation: Option<i8>, facing: Option<i8>)
        ensures
            final(self).rotation == (match rotation {
                Some(b) => (b as u8) % 8,
                None => 0,
            }),
            final(self).facing == (match facing {
                Some(b) => (b as u8) % 6,
                None => 0,
            }),
            final(self).has_item == old(self).has_item,
            final(self).fixed == old(self).fixed,
    {
        self.rotation = match rotation {
            Some(b) => (b as u8) % 8,
            None => 0,
        };
        self.facing = match facing {
            Some(b) => (b as u8) % 6,
            None => 0,
        };
    }

    /// Applies a hit: what `frame_damage_of` decides, and the frame loses
    /// its item whenever the hit is not ignored.
    pub fn damage(
        &mut self,
        removed: bool,
        bypasses_fixed: bool,
        creative: bool,
        explosion: bool,
        entity_drops: bool,
        item_roll_passes: bool,
    ) -> (r: FrameDamage)
        ensures
            r == frame_damage_of(
                *old(self),
                removed,
                bypasses_fixed,
                creative,
                explosion,
                entity_drops,
                item_roll_passes,
            ),
            r == FrameDamage::Ignored ==> *final(self) == *old(self),
            r != FrameDamage::Ignored ==> *final(self) == (ItemFrameEntity { has_item: false, ..*old(self) }),
    {
        if removed || (self.fixed && !bypasses_fixed && !creative) {
            return FrameDamage::Ignored;
        }
        if !self.fixed && !explosion && self.has_item {
            self.has_item = false;
            return FrameDamage::PopItem { drop: entity_drops && !creative };
        }
        let drops = entity_drops && !creative && !self.fixed;
        let had_item = self.has_item;
        self.has_item = false;
        FrameDamage::Break { drop_frame: drops, drop_item: drops && had_item && item_roll_passes }
    }
}

} // verus!
