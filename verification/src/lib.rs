//! Collectible cards for the xSphere games: a registry that mints cards
//! under sequential identifiers and answers ownership queries, the byte
//! layout of a stored card, and the engine core.
//!
//! Every function is verified against the contract in its signature. The
//! registry is stated against a mathematical model, [`model::RegistryView`],
//! whose laws are proved in [`model`].

pub mod address;
pub mod card;
pub mod codec;
pub mod model;
pub mod card_legends;
pub mod xsphere_core;
