//! Procedural level generation and the placement rules that turn a generated
//! layout into spawn positions.

pub mod building;
pub mod covenant;
pub mod district;
pub mod fortress;
pub mod generator;
pub mod hub;
pub mod jail;
pub mod new_game;
pub mod precinct;
pub mod small_jail;
pub mod syndicate;
pub mod world;
pub mod placement;
