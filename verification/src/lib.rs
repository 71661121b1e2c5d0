//! Gameplay logic of Necrophage, an isometric action RPG about a growing parasite:
//! the tile world, its procedural level generators, A* pathfinding, line of sight,
//! and the rules of growth, quests, factions and the psychic swarm.

pub mod biomass;
pub mod boss;
pub mod combat;
pub mod debug;
pub mod ending;
pub mod faction;
pub mod levels;
pub mod menu;
pub mod minimap;
pub mod movement;
pub mod npc;
pub mod population;
pub mod quest;
pub mod swarm;
pub mod world;
