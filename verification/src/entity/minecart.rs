//! Minecarts: rail geometry, what powered and activator rails do to each
//! kind of cart, the command minecart's activation state, and what damage
//! decides.  The cart's motion itself is floating-point physics that
//! applies these decisions.
use vstd::prelude::*;

use crate::random::random_below;
use crate::text::{slice_chars, str_chars, string_from_chars, string_from_str, trim_chars, trim_ws};

verus! {

/// The shape of a rail block.
#[derive(Clone, Copy, Debug, PartialEq, Eq, Structural)]
pub enum RailShape {
    NorthSouth,
    EastWest,
    AscendingEast,
    AscendingWest,
    AscendingNorth,
    AscendingSouth,
    SouthEast,
    SouthWest,
    NorthWest,
    NorthEast,
}

/// A block offset `(x, y, z)`.
pub type Offset = (i32, i32, i32);

/// The two exits of a rail shape, as unit offsets from the rail's centre
/// (an ascending rail's raised exit has `y = 1`).
pub open spec fn exits_of(shape: RailShape) -> (Offset, Offset) {
    match shape {
        RailShape::NorthSouth => ((0, 0, -1i32), (0, 0, 1)),
        RailShape::EastWest => ((-1i32, 0, 0), (1, 0, 0)),
        RailShape::AscendingEast => ((-1i32, 0, 0), (1, 1, 0)),
        RailShape::AscendingWest => ((1, 0, 0), (-1i32, 1, 0)),
        RailShape::AscendingNorth => ((0, 0, 1), (0, 1, -1i32)),
        RailShape::AscendingSouth => ((0, 0, -1i32), (0, 1, 1)),
        RailShape::SouthEast => ((0, 0, 1), (1, 0, 0)),
        RailShape::SouthWest => ((0, 0, 1), (-1i32, 0, 0)),
        RailShape::NorthWest => ((0, 0, -1i32), (-1i32, 0, 0)),
        RailShape::NorthEast => ((0, 0, -1i32), (1, 0, 0)),
    }
}

/// The exits of a rail shape.
pub fn get_exits(shape: RailShape) -> (r: (Offset, Offset))
    ensures
        r == exits_of(shape),
{
    match shape {
        RailShape::NorthSouth => ((0, 0, -1), (0, 0, 1)),
        RailShape::EastWest => ((-1, 0, 0), (1, 0, 0)),
        RailShape::AscendingEast => ((-1, 0, 0), (1, 1, 0)),
        RailShape::AscendingWest => ((1, 0, 0), (-1, 1, 0)),
        RailShape::AscendingNorth => ((0, 0, 1), (0, 1, -1)),
        RailShape::AscendingSouth => ((0, 0, -1), (0, 1, 1)),
        RailShape::SouthEast => ((0, 0, 1), (1, 0, 0)),
        RailShape::SouthWest => ((0, 0, 1), (-1, 0, 0)),
        RailShape::NorthWest => ((0, 0, -1), (-1, 0, 0)),
        RailShape::NorthEast => ((0, 0, -1), (1, 0, 0)),
    }
}

/// How a cart is held on a rail of some shape.
#[derive(Clone, Copy, Debug, PartialEq, Eq, Structural)]
pub struct RailFit {
    /// The rail turns a corner: the cart is projected onto the curve.
    pub in_corner: bool,
    /// The cart is centred on the rail along x.
    pub snap_x: bool,
    /// The cart is centred on the rail along z.
    pub snap_z: bool,
    /// The rail ascends: the cart keeps its height instead of resting on
    /// the rail.
    pub ascending: bool,
}

/// How a cart is held on a rail: a corner when the exits differ in both x
/// and z; else it is centred across the rail's direction.
pub open spec fn rail_fit_of(shape: RailShape) -> RailFit {
    let (e0, e1) = exits_of(shape);
    let corner = e0.0 != e1.0 && e0.2 != e1.2;
    RailFit {
        in_corner: corner,
        snap_x: !corner && e0.2 != e1.2,
        snap_z: !corner && e0.0 != e1.0,
        ascending: match shape {
            RailShape::AscendingEast | RailShape::AscendingWest | RailShape::AscendingNorth
            | RailShape::AscendingSouth => true,
            _ => false,
        },
    }
}

/// How a cart is held on a rail of this shape.
pub fn rail_fit(shape: RailShape) -> (r: RailFit)
    ensures
        r == rail_fit_of(shape),
{
    let (e0, e1) = get_exits(shape);
    let corner = e0.0 != e1.0 && e0.2 != e1.2;
    let ascending = match shape {
        RailShape::AscendingEast | RailShape::AscendingWest | RailShape::AscendingNorth
        | RailShape::AscendingSouth => true,
        _ => false,
    };
    RailFit {
        in_corner: corner,
        snap_x: !corner && e0.2 != e1.2,
        snap_z: !corner && e0.0 != e1.0,
        ascending,
    }
}

/// A block a cart may stand on.
#[derive(Clone, Copy, Debug, PartialEq, Eq, Structural)]
pub enum RailBlock {
    Rail,
    PoweredRail,
    DetectorRail,
    ActivatorRail,
    NotRail,
}

/// Where the cart's rail is: the block at its feet when that is a rail,
/// else the block below when that is one (`true` in the pair), else none.
pub fn locate_rail(here: RailBlock, below: RailBlock) -> (r: Option<(bool, RailBlock)>)
    ensures
        r == (if here != RailBlock::NotRail {
            Some((false, here))
        } else if below != RailBlock::NotRail {
            Some((true, below))
        } else {
            None
        }),
{
    if here != RailBlock::NotRail {
        Some((false, here))
    } else if below != RailBlock::NotRail {
        Some((true, below))
    } else {
        None
    }
}

/// The kinds of minecart.
#[derive(Clone, Copy, Debug, PartialEq, Eq, Structural)]
pub enum MinecartKind {
    Rideable,
    Chest,
    Furnace,
    Hopper,
    Tnt,
    Command,
    Spawner,
    Other,
}

/// The fuse a powered activator rail lights on a TNT cart.
pub const ACTIVATOR_FUSE: i32 = 80;

/// What a powered or activator rail does to a cart this tick.
#[derive(Clone, Copy, Debug, PartialEq, Eq, Structural)]
pub struct RailEffect {
    /// For a hopper cart on an activator rail: whether it is enabled.
    pub hopper_enabled: Option<bool>,
    /// A powered rail speeds the cart up (or starts it).
    pub boost: bool,
    /// An unpowered powered rail halves the cart's speed.
    pub brake: bool,
    /// A TNT cart is primed with an 80-tick fuse.
    pub prime_tnt: bool,
    /// A command cart runs its command.
    pub activate_command: bool,
    /// A rideable cart drops its passengers.
    pub eject_passengers: bool,
    /// A rideable cart that is not already shaking shakes.
    pub wobble: bool,
}

/// What the rail under a cart does: an activator rail enables a hopper
/// cart exactly when unpowered; a powered powered rail boosts; a powered
/// activator rail primes TNT, runs a command or unloads a rideable cart
/// (shaking it when it is not shaking yet); an unpowered powered rail
/// brakes.
pub open spec fn rail_effect_of(kind: MinecartKind, rail: RailBlock, powered: bool, hurt_time_zero: bool) -> RailEffect {
    let powered_rail = rail == RailBlock::PoweredRail;
    let activator = rail == RailBlock::ActivatorRail;
    let active = activator && powered;
    RailEffect {
        hopper_enabled: if activator && kind == MinecartKind::Hopper {
            Some(!powered)
        } else {
            None
        },
        boost: powered_rail && powered,
        brake: powered_rail && !powered,
        prime_tnt: active && kind == MinecartKind::Tnt,
        activate_command: active && kind == MinecartKind::Command,
        eject_passengers: active && kind == MinecartKind::Rideable,
        wobble: active && kind == MinecartKind::Rideable && hurt_time_zero,
    }
}

/// The effect of the rail under a cart.
pub fn rail_effect(kind: MinecartKind, rail: RailBlock, powered: bool, hurt_time_zero: bool) -> (r:
    RailEffect)
    ensures
        r == rail_effect_of(kind, rail, powered, hurt_time_zero),
{
    let powered_rail = rail == RailBlock::PoweredRail;
    let activator = rail == RailBlock::ActivatorRail;
    let active = activator && powered;
    RailEffect {
        hopper_enabled: if activator && kind == MinecartKind::Hopper {
            Some(!powered)
        } else {
            None
        },
        boost: powered_rail && powered,
        brake: powered_rail && !powered,
        prime_tnt: active && kind == MinecartKind::Tnt,
        activate_command: active && kind == MinecartKind::Command,
        eject_passengers: active && kind == MinecartKind::Rideable,
        wobble: active && kind == MinecartKind::Rideable && hurt_time_zero,
    }
}

/// The signed int a success count is stored as.
pub open spec fn stored_success_count(count: u32) -> i32 {
    count as i32
}

/// The success count a stored int reads back as: negative and missing
/// values as 0.
pub open spec fn read_success_count(stored: Option<i32>) -> int {
    match stored {
        Some(n) => if n > 0 {
            n as int
        } else {
            0
        },
        None => 0,
    }
}

/// A stored success count that fits a signed int reads back unchanged.
pub proof fn lemma_success_count_round_trip(count: u32)
    requires
        count <= i32::MAX,
    ensures
        read_success_count(Some(stored_success_count(count))) == count,
{
}

/// What rails do to carts: an unpowered rail primes, runs, unloads and
/// shakes nothing and boosts nothing; only an activator rail primes TNT,
/// runs a command, unloads a rideable cart or switches a hopper cart, and
/// a powered one does so for its kind; only a powered rail boosts (powered)
/// or brakes (unpowered).
pub proof fn lemma_rail_effect_rules(kind: MinecartKind, rail: RailBlock, powered: bool, hurt_time_zero: bool)
    ensures
        ({
            let e = rail_effect_of(kind, rail, powered, hurt_time_zero);
            &&& !powered ==> !e.eject_passengers && !e.prime_tnt && !e.activate_command && !e.wobble && !e.boost
            &&& rail != RailBlock::ActivatorRail ==> !e.eject_passengers && !e.prime_tnt && !e.activate_command
                && !e.wobble && e.hopper_enabled is None
            &&& rail != RailBlock::PoweredRail ==> !e.boost && !e.brake
            &&& e.eject_passengers ==> kind == MinecartKind::Rideable
            &&& e.prime_tnt ==> kind == MinecartKind::Tnt
            &&& e.activate_command ==> kind == MinecartKind::Command
            &&& e.wobble ==> e.eject_passengers && hurt_time_zero
            &&& powered && rail == RailBlock::ActivatorRail ==> (e.eject_passengers == (kind == MinecartKind::Rideable)
                && e.prime_tnt == (kind == MinecartKind::Tnt) && e.activate_command == (kind == MinecartKind::Command))
            &&& rail == RailBlock::ActivatorRail && kind == MinecartKind::Hopper ==> e.hopper_enabled == Some(!powered)
            &&& rail == RailBlock::PoweredRail ==> e.boost == powered && e.brake == !powered
        }),
{
}

/// The ticks a command cart waits between two runs.
pub const ACTIVATION_DELAY: i32 = 4;

/// The command state of a command-block minecart.
pub struct CommandMinecart {
    pub command: String,
    pub last_output: String,
    pub track_output: bool,
    pub success_count: u32,
    pub activation_cooldown: i32,
}

impl CommandMinecart {
    /// A cart with no command, tracking output, ready to run.
    pub fn new() -> (r: CommandMinecart)
        ensures
            r.command@ == Seq::<char>::empty(),
            r.last_output@ == Seq::<char>::empty(),
            r.track_output,
            r.success_count == 0,
            r.activation_cooldown == 0,
    {
        CommandMinecart {
            command: String::new(),
            last_output: String::new(),
            track_output: true,
            success_count: 0,
            activation_cooldown: 0,
        }
    }

    /// One tick: a running cooldown goes down by one.
    pub fn tick(&mut self)
        ensures
            final(self).activation_cooldown == (if old(self).activation_cooldown > 0 {
                old(self).activation_cooldown - 1
            } else {
                old(self).activation_cooldown as int
            }),
            final(self).command@ == old(self).command@,
            final(self).last_output@ == old(self).last_output@,
            final(self).success_count == old(self).success_count,
            final(self).track_output == old(self).track_output,
    {
        if self.activation_cooldown > 0 {
            self.activation_cooldown = self.activation_cooldown - 1;
        }
    }

    /// An activator rail asks the cart to run its command: it does only when
    /// no cooldown is running (exactly 0), and the cooldown restarts at 4.
    /// The command to run is the trimmed command; an empty one resets the
    /// success count instead.
    pub fn activate(&mut self) -> (r: Option<String>)
        ensures
            old(self).activation_cooldown != 0 ==> r is None && final(self).activation_cooldown
                == old(self).activation_cooldown && final(self).success_count
                == old(self).success_count,
            old(self).activation_cooldown == 0 ==> final(self).activation_cooldown
                == ACTIVATION_DELAY,
            old(self).activation_cooldown == 0 && trim_ws(old(self).command@).len() == 0 ==> r is None
                && final(self).success_count == 0,
            old(self).activation_cooldown == 0 && trim_ws(old(self).command@).len() > 0 ==> (r matches Some(c) && c@ == trim_ws(old(self).command@)) && final(self).success_count
                == old(self).success_count,
            final(self).command@ == old(self).command@,
            final(self).last_output@ == old(self).last_output@,
            final(self).track_output == old(self).track_output,
    {
        if self.activation_cooldown != 0 {
            return None;
        }
        self.activation_cooldown = ACTIVATION_DELAY;
        let all = str_chars(self.command.as_str());
        let trimmed = trim_chars(&all);
        if trimmed.len() == 0 {
            self.success_count = 0;
            return None;
        }
        Some(string_from_chars(&trimmed))
    }

    /// Sets the command from the editor (one leading `/` dropped) and
    /// whether the cart tracks its output.
    pub fn set_command(&mut self, command: &str, track_output: bool)
        ensures
            final(self).command@ == (if command@.len() > 0 && command@[0] == '/' {
                command@.skip(1)
            } else {
                command@
            }),
            final(self).track_output == track_output,
            final(self).last_output@ == old(self).last_output@,
            final(self).success_count == old(self).success_count,
            final(self).activation_cooldown == old(self).activation_cooldown,
    {
        let chars = str_chars(command);
        let kept = if chars.len() > 0 && chars[0] == '/' {
            slice_chars(&chars, 1, chars.len())
        } else {
            slice_chars(&chars, 0, chars.len())
        };
        self.command = string_from_chars(&kept);
        self.track_output = track_output;
    }

    /// What a detector rail under the cart reads: its success count, at
    /// most 15.
    pub fn comparator_output(&self) -> (r: u8)
        ensures
            r == (if self.success_count < 15 {
                self.success_count as int
            } else {
                15
            }),
    {
        if self.success_count < 15 {
            self.success_count as u8
        } else {
            15
        }
    }

    /// The values the cart stores: `Command`, `LastOutput`, `TrackOutput`
    /// and `SuccessCount` (as a signed int).
    pub fn write_nbt(&self) -> (r: (String, String, bool, i32))
        ensures
            r.0@ == self.command@,
            r.1@ == self.last_output@,
            r.2 == self.track_output,
            r.3 == stored_success_count(self.success_count),
    {
        (
            string_from_str(self.command.as_str()),
            string_from_str(self.last_output.as_str()),
            self.track_output,
            self.success_count as i32,
        )
    }

    /// The cart stores its state: `Command`, `LastOutput`, `TrackOutput`
    /// and `SuccessCount` (read back as 0 when negative; missing strings as
    /// empty, a missing flag as true).
    pub fn read_nbt(
        &mut self,
        command: Option<String>,
        last_output: Option<String>,
        track_output: Option<bool>,
        success_count: Option<i32>,
    )
        ensures
            final(self).command@ == (match command {
                Some(c) => c@,
                None => Seq::<char>::empty(),
            }),
            final(self).last_output@ == (match last_output {
                Some(c) => c@,
                None => Seq::<char>::empty(),
            }),
            final(self).track_output == (match track_output {
                Some(b) => b,
                None => true,
            }),
            final(self).success_count == read_success_count(success_count),
            final(self).activation_cooldown == old(self).activation_cooldown,
    {
        self.command = match command {
            Some(c) => c,
            None => String::new(),
        };
        self.last_output = match last_output {
            Some(c) => c,
            None => String::new(),
        };
        self.track_output = match track_output {
            Some(b) => b,
            None => true,
        };
        self.success_count = match success_count {
            Some(n) => if n > 0 {
                n as u32
            } else {
                0
            },
            None => 0,
        };
    }
}

/// What damaging a cart reads.
#[derive(Clone, Copy, Debug, PartialEq, Eq, Structural)]
pub struct MinecartDamageFacts {
    pub kind: MinecartKind,
    /// The damage is an arrow's.
    pub arrow: bool,
    /// The cart is burning.
    pub on_fire: bool,
    pub alive: bool,
    /// The attacker is a creative player.
    pub creative: bool,
    /// The cart's accumulated damage plus ten times this hit passes 40.
    pub damage_exceeds: bool,
    /// The damage is fire or an explosion.
    pub fiery_damage: bool,
    /// The cart moves at a horizontal speed of at least 0.1.
    pub moving: bool,
}

/// What damaging a cart decides before the damage itself is applied.
#[derive(Clone, Copy, Debug, PartialEq, Eq, Structural)]
pub struct MinecartDamagePlan {
    /// A burning arrow explodes a TNT cart first.
    pub explode_first: bool,
    /// The hit breaks the cart.
    pub will_break: bool,
    /// A breaking TNT cart that ignites is lit instead of broken.
    pub light_tnt: bool,
}

/// Plans the damage: a burning arrow sets off a TNT cart; a creative hit,
/// or enough damage, breaks a living cart; a TNT cart that would break
/// from a non-creative hit is lit when the hit is fiery, the cart burns or
/// it is moving.
pub fn plan_minecart_damage(f: MinecartDamageFacts) -> (r: MinecartDamagePlan)
    ensures
        r.explode_first == (f.kind == MinecartKind::Tnt && f.arrow && f.on_fire),
        r.will_break == (f.alive && (f.creative || f.damage_exceeds)),
        r.light_tnt == (f.kind == MinecartKind::Tnt && r.will_break && !f.creative && (
        f.fiery_damage || f.on_fire || f.moving)),
{
    let tnt = f.kind == MinecartKind::Tnt;
    let will_break = f.alive && (f.creative || f.damage_exceeds);
    MinecartDamagePlan {
        explode_first: tnt && f.arrow && f.on_fire,
        will_break,
        light_tnt: tnt && will_break && !f.creative && (f.fiery_damage || f.on_fire || f.moving),
    }
}

/// Whether a broken cart drops its item and contents: it broke from a
/// non-creative hit, is gone, and the `doEntityDrops` rule holds.
pub fn drops_after_damage(will_break: bool, creative: bool, removed: bool, entity_drops: bool) -> (r:
    bool)
    ensures
        r == (will_break && !creative && removed && entity_drops),
{
    will_break && !creative && removed && entity_drops
}

/// The fuse a lit TNT cart gets from two draws below 20: their sum.
pub fn tnt_fuse_from(a: u32, b: u32) -> (r: i32)
    requires
        a < 20,
        b < 20,
    ensures
        r == a + b,
{
    (a + b) as i32
}

/// The fuse a lit TNT cart gets: two draws below 20, added.
pub fn tnt_fuse() -> (r: i32)
    ensures
        0 <= r <= 38,
{
    let a = random_below(20);
    let b = random_below(20);
    tnt_fuse_from(a, b)
}

/// Where using an item on a cart is handled.
#[derive(Clone, Copy, Debug, PartialEq, Eq, Structural)]
pub enum MinecartUse {
    /// By the cart kind's own handling (chest, furnace, hopper, riding).
    ByKind,
    /// Taken, without effect (a command cart used by an operator).
    Consumed,
    /// Refused.
    Refused,
}

/// Where using an item on a cart of this kind is handled.
pub fn minecart_use(kind: MinecartKind, operator: bool) -> (r: MinecartUse)
    ensures
        r == (match kind {
            MinecartKind::Chest | MinecartKind::Furnace | MinecartKind::Hopper
            | MinecartKind::Rideable => MinecartUse::ByKind,
            MinecartKind::Command => if operator {
                MinecartUse::Consumed
            } else {
                MinecartUse::Refused
            },
            _ => MinecartUse::Refused,
        }),
{
    match kind {
        MinecartKind::Chest | MinecartKind::Furnace | MinecartKind::Hopper
        | MinecartKind::Rideable => MinecartUse::ByKind,
        MinecartKind::Command => if operator {
            MinecartUse::Consumed
        } else {
            MinecartUse::Refused
        },
        _ => MinecartUse::Refused,
    }
}

/// The item a broken cart drops.
#[derive(Clone, Copy, Debug, PartialEq, Eq, Structural)]
pub enum CartItem {
    Minecart,
    ChestMinecart,
    FurnaceMinecart,
    HopperMinecart,
    TntMinecart,
}

/// The item a broken cart of some kind drops: its own cart item, the plain
/// minecart for rideable, command and spawner carts, none otherwise.
pub open spec fn drop_item_of(kind: MinecartKind) -> Option<CartItem> {
    match kind {
        MinecartKind::Chest => Some(CartItem::ChestMinecart),
        MinecartKind::Furnace => Some(CartItem::FurnaceMinecart),
        MinecartKind::Hopper => Some(CartItem::HopperMinecart),
        MinecartKind::Tnt => Some(CartItem::TntMinecart),
        MinecartKind::Rideable | MinecartKind::Command | MinecartKind::Spawner => Some(
            CartItem::Minecart,
        ),
        MinecartKind::Other => None,
    }
}

/// The item a broken cart of this kind drops.
pub fn drop_item(kind: MinecartKind) -> (r: Option<CartItem>)
    ensures
        r == drop_item_of(kind),
{
    match kind {
        MinecartKind::Chest => Some(CartItem::ChestMinecart),
        MinecartKind::Furnace => Some(CartItem::FurnaceMinecart),
        MinecartKind::Hopper => Some(CartItem::HopperMinecart),
        MinecartKind::Tnt => Some(CartItem::TntMinecart),
        MinecartKind::Rideable | MinecartKind::Command | MinecartKind::Spawner => Some(
            CartItem::Minecart,
        ),
        MinecartKind::Other => None,
    }
}

/// Whether a cart of this kind carries a container (chest and hopper carts).
pub open spec fn has_container(kind: MinecartKind) -> bool {
    kind == MinecartKind::Chest || kind == MinecartKind::Hopper
}

/// The block under a cart that is off the rails.
#[derive(Clone, Copy, Debug, PartialEq, Eq, Structural)]
pub enum GroundBlock {
    Air,
    Water,
    Lava,
    Solid,
}

/// How a moving cart loses speed after it moved.
#[derive(Clone, Copy, Debug, PartialEq, Eq, Structural)]
pub enum CartSlowdown {
    /// A furnace cart on rails follows its own fuel rule.
    Furnace,
    /// A chest or hopper cart on rails slows by how full it is.
    Container,
    /// On rails with a rider (factor 0.99).
    LoadedRail,
    /// On rails without a rider (factor 0.96).
    EmptyRail,
    /// Off the rails, on the ground (factor 0.5).
    Ground,
    /// Off the rails, in water (factor 0.95).
    Water,
    /// Off the rails, in the air (factor 0.95).
    Air,
}

/// The slowdown rule: on rails, furnace carts and container carts follow
/// their own rules and the others a rail drag that depends on a rider;
/// off the rails the cart is on the ground when it stands on something or
/// the block below is neither air, water nor lava, else in water when it
/// touches water or the block below is water, else in the air.
pub open spec fn cart_slowdown_of(
    kind: MinecartKind,
    on_rails: bool,
    has_passengers: bool,
    on_ground: bool,
    below: GroundBlock,
    touching_water: bool,
) -> CartSlowdown {
    if on_rails {
        if kind == MinecartKind::Furnace {
            CartSlowdown::Furnace
        } else if has_container(kind) {
            CartSlowdown::Container
        } else if has_passengers {
            CartSlowdown::LoadedRail
        } else {
            CartSlowdown::EmptyRail
        }
    } else if on_ground || below == GroundBlock::Solid {
        CartSlowdown::Ground
    } else if touching_water || below == GroundBlock::Water {
        CartSlowdown::Water
    } else {
        CartSlowdown::Air
    }
}

/// How a cart that moved this tick loses speed.
pub fn cart_slowdown(
    kind: MinecartKind,
    on_rails: bool,
    has_passengers: bool,
    on_ground: bool,
    below: GroundBlock,
    touching_water: bool,
) -> (r: CartSlowdown)
    ensures
        r == cart_slowdown_of(kind, on_rails, has_passengers, on_ground, below, touching_water),
{
    if on_rails {
        if kind == MinecartKind::Furnace {
            CartSlowdown::Furnace
        } else if kind == MinecartKind::Chest || kind == MinecartKind::Hopper {
            CartSlowdown::Container
        } else if has_passengers {
            CartSlowdown::LoadedRail
        } else {
            CartSlowdown::EmptyRail
        }
    } else if on_ground || below == GroundBlock::Solid {
        CartSlowdown::Ground
    } else if touching_water || below == GroundBlock::Water {
        CartSlowdown::Water
    } else {
        CartSlowdown::Air
    }
}

/// The direction a rider drives a cart on rails.
#[derive(Clone, Copy, Debug, PartialEq, Eq, Structural)]
pub enum Thrust {
    Forward,
    Backward,
    Coast,
}

/// A rider drives the cart only on rails; forward wins over backward.
pub fn driver_thrust(has_driver: bool, on_rails: bool, forward: bool, backward: bool) -> (r: Thrust)
    ensures
        r == (if !(has_driver && on_rails) {
            Thrust::Coast
        } else if forward {
            Thrust::Forward
        } else if backward {
            Thrust::Backward
        } else {
            Thrust::Coast
        }),
{
    if !(has_driver && on_rails) {
        Thrust::Coast
    } else if forward {
        Thrust::Forward
    } else if backward {
        Thrust::Backward
    } else {
        Thrust::Coast
    }
}

/// What a cart touches when an entity pushes into it.
#[derive(Clone, Copy, Debug, PartialEq, Eq, Structural)]
pub enum PushPartner {
    /// Another cart, furnace or not.
    Cart { furnace: bool },
    /// Any other entity: whether it can be pushed and whether it carries
    /// passengers.
    Entity { pushable: bool, has_passengers: bool },
}

/// What a push reads; the two geometric tests are made on the positions
/// and velocities by the caller.
#[derive(Clone, Copy, Debug, PartialEq, Eq, Structural)]
pub struct PushFacts {
    /// Either entity ignores collisions.
    pub no_clip: bool,
    /// One of the two rides the other.
    pub riding: bool,
    /// The squared horizontal distance is at least 1e-4.
    pub close_enough: bool,
    /// The cart moves along its facing (the dot product of its direction
    /// of motion and its facing is at least 0.8 in absolute value).
    pub aligned: bool,
    pub self_furnace: bool,
    pub self_has_passengers: bool,
    pub partner: PushPartner,
}

/// Which of two colliding carts leads.
#[derive(Clone, Copy, Debug, PartialEq, Eq, Structural)]
pub enum CartLead {
    /// The other cart is a furnace cart and this one is not: this one
    /// takes the other's speed, the other slows a little.
    Other,
    /// This cart is a furnace cart and the other is not.
    This,
    /// Both or neither are furnace carts: they share their mean speed.
    Shared,
}

/// The outcome of a push.
#[derive(Clone, Copy, Debug, PartialEq, Eq, Structural)]
pub enum PushPlan {
    /// Nothing moves.
    Ignore,
    /// Two carts exchange speed.
    Carts(CartLead),
    /// The cart moves back and/or the entity is nudged away.
    Nudge { move_cart: bool, move_entity: bool },
}

/// The push rule: nothing happens to entities that ignore collisions, to a
/// rider and its mount, or at (almost) no distance; two carts exchange
/// speed only when this one moves along its facing, the furnace cart
/// leading; another entity nudges the cart back when the cart has no rider
/// and is nudged itself when it can be pushed and has no rider.
pub open spec fn push_plan_of(f: PushFacts) -> PushPlan {
    if f.no_clip || f.riding || !f.close_enough {
        PushPlan::Ignore
    } else {
        match f.partner {
            PushPartner::Cart { furnace } => if !f.aligned {
                PushPlan::Ignore
            } else if furnace && !f.self_furnace {
                PushPlan::Carts(CartLead::Other)
            } else if !furnace && f.self_furnace {
                PushPlan::Carts(CartLead::This)
            } else {
                PushPlan::Carts(CartLead::Shared)
            },
            PushPartner::Entity { pushable, has_passengers } => PushPlan::Nudge {
                move_cart: !f.self_has_passengers,
                move_entity: !has_passengers && pushable,
            },
        }
    }
}

/// What a push between a cart and another entity does.
pub fn push_plan(f: PushFacts) -> (r: PushPlan)
    ensures
        r == push_plan_of(f),
{
    if f.no_clip || f.riding || !f.close_enough {
        return PushPlan::Ignore;
    }
    match f.partner {
        PushPartner::Cart { furnace } => if !f.aligned {
            PushPlan::Ignore
        } else if furnace && !f.self_furnace {
            PushPlan::Carts(CartLead::Other)
        } else if !furnace && f.self_furnace {
            PushPlan::Carts(CartLead::This)
        } else {
            PushPlan::Carts(CartLead::Shared)
        },
        PushPartner::Entity { pushable, has_passengers } => PushPlan::Nudge {
            move_cart: !f.self_has_passengers,
            move_entity: !has_passengers && pushable,
        },
    }
}

/// The ticks a hopper cart waits after it moved an item.
pub const HOPPER_TRANSFER_COOLDOWN: i32 = 8;

/// The slots of a hopper cart's inventory.
pub const HOPPER_SLOTS: usize = 5;

/// A hopper minecart's transfer state: whether it is enabled (an activator
/// rail disables it) and the ticks left before it may move an item (-1
/// when it never moved one).
#[derive(Clone, Copy, Debug, PartialEq, Eq, Structural)]
pub struct HopperMinecart {
    pub enabled: bool,
    pub transfer_cooldown: i32,
}

impl HopperMinecart {
    /// An enabled cart that may move an item at once.
    pub fn new() -> (r: HopperMinecart)
        ensures
            r == (HopperMinecart { enabled: true, transfer_cooldown: -1i32 }),
    {
        HopperMinecart { enabled: true, transfer_cooldown: -1 }
    }

    /// The number of slots of the cart's inventory.
    pub fn inventory_size(&self) -> (r: usize)
        ensures
            r == HOPPER_SLOTS,
    {
        HOPPER_SLOTS
    }

    pub fn set_enabled(&mut self, enabled: bool)
        ensures
            *final(self) == (HopperMinecart { enabled, ..*old(self) }),
    {
        self.enabled = enabled;
    }

    /// The start of a tick: a disabled cart does nothing; an enabled one
    /// counts its cooldown down and may move an item only when the
    /// cooldown had run out, in which case the cooldown rests at 0.
    pub fn begin_tick(&mut self) -> (may_transfer: bool)
        ensures
            !old(self).enabled ==> !may_transfer && *final(self) == *old(self),
            old(self).enabled ==> may_transfer == (old(self).transfer_cooldown <= 0),
            old(self).enabled && old(self).transfer_cooldown > 0 ==> final(self).transfer_cooldown
                == old(self).transfer_cooldown - 1,
            may_transfer ==> final(self).transfer_cooldown == 0,
            final(self).enabled == old(self).enabled,
    {
        if !self.enabled {
            return false;
        }
        if self.transfer_cooldown > 0 {
            self.transfer_cooldown = self.transfer_cooldown - 1;
            return false;
        }
        self.transfer_cooldown = 0;
        true
    }

    /// After an item moved, the cart waits 8 ticks.
    pub fn transferred(&mut self)
        ensures
            *final(self) == (HopperMinecart {
                transfer_cooldown: HOPPER_TRANSFER_COOLDOWN,
                ..*old(self)
            }),
    {
        self.transfer_cooldown = HOPPER_TRANSFER_COOLDOWN;
    }

    /// The stored `Enabled` flag and `TransferCooldown`.
    pub fn write_nbt(&self) -> (r: (bool, i32))
        ensures
            r == (self.enabled, self.transfer_cooldown),
    {
        (self.enabled, self.transfer_cooldown)
    }

    /// Reads `Enabled` (missing: true) and `TransferCooldown` (missing: -1).
    pub fn read_nbt(&mut self, enabled: Option<bool>, transfer_cooldown: Option<i32>)
        ensures
            final(self).enabled == (match enabled {
                Some(b) => b,
                None => true,
            }),
            final(self).transfer_cooldown == (match transfer_cooldown {
                Some(c) => c,
                None => -1i32,
            }),
    {
        self.enabled = match enabled {
            Some(b) => b,
            None => true,
        };
        self.transfer_cooldown = match transfer_cooldown {
            Some(c) => c,
            None => -1,
        };
    }
}

/// The entity types a minecart can be spawned as.
#[derive(Clone, Copy, Debug, PartialEq, Eq, Structural)]
pub enum MinecartType {
    Minecart,
    ChestMinecart,
    FurnaceMinecart,
    HopperMinecart,
    TntMinecart,
    CommandBlockMinecart,
    SpawnerMinecart,
    Other,
}

/// The kind of cart an entity type makes.
pub open spec fn kind_of_type(t: MinecartType) -> MinecartKind {
    match t {
        MinecartType::Minecart => MinecartKind::Rideable,
        MinecartType::ChestMinecart => MinecartKind::Chest,
        MinecartType::FurnaceMinecart => MinecartKind::Furnace,
        MinecartType::HopperMinecart => MinecartKind::Hopper,
        MinecartType::TntMinecart => MinecartKind::Tnt,
        MinecartType::CommandBlockMinecart => MinecartKind::Command,
        MinecartType::SpawnerMinecart => MinecartKind::Spawner,
        MinecartType::Other => MinecartKind::Other,
    }
}

/// A minecart: its kind, and the state of its command block or hopper
/// when it has one.
pub struct MinecartEntity {
    pub entity_id: i32,
    pub kind: MinecartKind,
    pub command: Option<CommandMinecart>,
    pub hopper: Option<HopperMinecart>,
}

impl MinecartEntity {
    /// A cart of the kind its entity type makes, with a fresh command
    /// block or hopper where the kind has one.
    pub fn new(entity_id: i32, entity_type: MinecartType) -> (r: MinecartEntity)
        ensures
            r.entity_id == entity_id,
            r.kind == kind_of_type(entity_type),
            (r.kind == MinecartKind::Command) == r.command is Some,
            r.command matches Some(c) ==> c.command@.len() == 0 && c.last_output@.len() == 0
                && c.track_output && c.success_count == 0 && c.activation_cooldown == 0,
            r.hopper == (if r.kind == MinecartKind::Hopper {
                Some(HopperMinecart { enabled: true, transfer_cooldown: -1i32 })
            } else {
                None
            }),
    {
        let kind = match entity_type {
            MinecartType::Minecart => MinecartKind::Rideable,
            MinecartType::ChestMinecart => MinecartKind::Chest,
            MinecartType::FurnaceMinecart => MinecartKind::Furnace,
            MinecartType::HopperMinecart => MinecartKind::Hopper,
            MinecartType::TntMinecart => MinecartKind::Tnt,
            MinecartType::CommandBlockMinecart => MinecartKind::Command,
            MinecartType::SpawnerMinecart => MinecartKind::Spawner,
            MinecartType::Other => MinecartKind::Other,
        };
        let command = if kind == MinecartKind::Command {
            Some(CommandMinecart::new())
        } else {
            None
        };
        let hopper = if kind == MinecartKind::Hopper {
            Some(HopperMinecart::new())
        } else {
            None
        };
        MinecartEntity { entity_id, kind, command, hopper }
    }

    /// What a detector rail under the cart reads: a command cart its
    /// success count (at most 15), a chest or hopper cart the signal of its
    /// inventory (`container_signal`, measured by the caller), other carts
    /// nothing.
    pub fn detector_rail_comparator_output(&self, container_signal: u8) -> (r: Option<u8>)
        ensures
            match self.command {
                Some(c) => r == Some(
                    (if c.success_count < 15 {
                        c.success_count as u8
                    } else {
                        15u8
                    }),
                ),
                None => r == (if has_container(self.kind) {
                    Some(container_signal)
                } else {
                    None
                }),
            },
    {
        match &self.command {
            Some(c) => Some(c.comparator_output()),
            None => if self.kind == MinecartKind::Chest || self.kind == MinecartKind::Hopper {
                Some(container_signal)
            } else {
                None
            },
        }
    }

    /// The command editor sets a command cart's command; other carts are
    /// unchanged.
    pub fn set_command(&mut self, command: &str, track_output: bool)
        ensures
            final(self).kind == old(self).kind,
            final(self).hopper == old(self).hopper,
            old(self).command is None ==> final(self).command is None,
            old(self).command matches Some(c) ==> final(self).command matches Some(n) && n.command@
                == (if command@.len() > 0 && command@[0] == '/' {
                command@.skip(1)
            } else {
                command@
            }) && n.track_output == track_output && n.success_count == c.success_count
                && n.last_output@ == c.last_output@,
    {
        if let Some(c) = &mut self.command {
            c.set_command(command, track_output);
        }
    }
}

/// Where a container cart's deferred loot comes from when it is unpacked.
#[derive(Clone, Copy, Debug, PartialEq, Eq, Structural)]
pub enum LootSource {
    /// The active datapacks override the table.
    Datapack,
    /// The generated vanilla table.
    BuiltIn,
    /// The table is unknown: it stays deferred, to be retried after a
    /// reload.
    Deferred,
}

/// The loot state of a chest or hopper cart: a loot table (with its seed)
/// not yet rolled into the inventory, and whether the contents were
/// already dropped.
pub struct CartLoot {
    pub loot_table: Option<(String, i64)>,
    pub drops_claimed: bool,
}

impl CartLoot {
    /// No deferred table; nothing dropped yet.
    pub fn new() -> (r: CartLoot)
        ensures
            r.loot_table is None,
            !r.drops_claimed,
    {
        CartLoot { loot_table: None, drops_claimed: false }
    }

    /// The contents drop only once: the first claim succeeds, later ones
    /// fail.
    pub fn claim_drops(&mut self) -> (r: bool)
        ensures
            r == !old(self).drops_claimed,
            final(self).drops_claimed,
            final(self).loot_table == old(self).loot_table,
    {
        let first = !self.drops_claimed;
        self.drops_claimed = true;
        first
    }

    /// Reads `LootTable` and `LootTableSeed` (0 when missing); the result
    /// says whether the stored items are to be read, which they are only
    /// without a table.
    pub fn read_nbt(&mut self, loot_table: Option<String>, seed: Option<i64>) -> (read_items: bool)
        ensures
            read_items == loot_table is None,
            final(self).loot_table == (match loot_table {
                Some(t) => Some(
                    (
                        t,
                        match seed {
                            Some(s) => s,
                            None => 0i64,
                        },
                    ),
                ),
                None => None,
            }),
            final(self).drops_claimed == old(self).drops_claimed,
    {
        let read_items = loot_table.is_none();
        self.loot_table = match loot_table {
            Some(t) => Some(
                (
                    t,
                    match seed {
                        Some(s) => s,
                        None => 0,
                    },
                ),
            ),
            None => None,
        };
        read_items
    }

    /// What the cart stores of its table: the table and, when not 0, the
    /// seed; `None` means the items are stored instead.
    pub fn write_nbt(&self) -> (r: Option<(String, Option<i64>)>)
        ensures
            match self.loot_table {
                Some((t, seed)) => r matches Some((u, s)) && u@ == t@ && s == (if seed != 0 {
                    Some(seed)
                } else {
                    None
                }),
                None => r is None,
            },
    {
        match &self.loot_table {
            Some((t, seed)) => Some(
                (
                    crate::text::string_from_str(t.as_str()),
                    if *seed != 0 {
                        Some(*seed)
                    } else {
                        None
                    },
                ),
            ),
            None => None,
        }
    }

    /// Unpacking takes the deferred table out, if there is one, with its
    /// canonical key (`minecraft:` added to a key without a namespace) and
    /// its seed.
    pub fn take_table(&mut self) -> (r: Option<(String, String, i64)>)
        ensures
            final(self).loot_table is None,
            final(self).drops_claimed == old(self).drops_claimed,
            match old(self).loot_table {
                Some((t, seed)) => r matches Some((u, key, s)) && u@ == t@ && key@
                    == crate::recipe::canonical_recipe_id(t@) && s == seed,
                None => r is None,
            },
    {
        match self.loot_table.take() {
            Some((t, seed)) => {
                let key = crate::recipe::canonicalize_recipe_id(t.as_str());
                Some((t, key, seed))
            },
            None => None,
        }
    }

    /// Where the loot comes from: a datapack override that evaluates wins,
    /// else the generated table; an unknown table is put back.
    pub fn unpack_source(
        &mut self,
        table: String,
        seed: i64,
        override_evaluated: bool,
        built_in_known: bool,
    ) -> (r: LootSource)
        ensures
            r == (if override_evaluated {
                LootSource::Datapack
            } else if built_in_known {
                LootSource::BuiltIn
            } else {
                LootSource::Deferred
            }),
            r == LootSource::Deferred ==> final(self).loot_table == Some((table, seed)),
            r != LootSource::Deferred ==> final(self).loot_table == old(self).loot_table,
            final(self).drops_claimed == old(self).drops_claimed,
    {
        if override_evaluated {
            LootSource::Datapack
        } else if built_in_known {
            LootSource::BuiltIn
        } else {
            self.loot_table = Some((table, seed));
            LootSource::Deferred
        }
    }
}

} // verus!
