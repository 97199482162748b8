//! Game-rule logic of the Pumpkin server: datapack tags and resources,
//! the function scheduler, recipe keys and entity behaviour decisions.
pub mod text;
pub mod identifier;
pub mod sorted;
pub mod keyed;
pub mod recipe;
pub mod function_scheduler;
pub mod datapack;
pub mod entity;
pub mod items;
pub mod random;
