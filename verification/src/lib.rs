pub mod combat;
pub mod enemy;
pub mod enemy_type;
pub mod game;
pub mod hud;
pub mod inventory;
pub mod map_loader;
pub mod map_utils;
pub mod menu;
pub mod npc;
pub mod objects;
pub mod pause;
pub mod player;
pub mod run;
pub mod save;
pub mod text;
pub mod tile_properties;
pub mod tilemap;
pub mod transition;
pub mod utils;
pub mod xml;
