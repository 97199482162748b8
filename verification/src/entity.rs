//! Mobs, projectiles and their goals: the decisions and state changes that
//! vanilla behaviour fixes, over plain values that the world hands in.
pub mod goals;
pub mod doors;
pub mod falling;
pub mod hunger;
pub mod fishing;
pub mod experience;
pub mod mobs;
pub mod passive;
pub mod neutral;
pub mod decoration;
pub mod projectiles;
pub mod predicate;
pub mod minecart;
