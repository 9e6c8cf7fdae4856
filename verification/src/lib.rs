pub mod aseprite_data;
pub mod common;
pub mod ghosts;
pub mod helper;
pub mod interactions;
pub mod life_cycle;
pub mod lives;
pub mod map;
pub mod music;
pub mod new_map;
pub mod pacman;
pub mod position_map;
pub mod schedule;
pub mod score;
pub mod sheet_paths;
pub mod speed;
pub mod sprite_sheet;
pub mod sprite_sheets;
pub mod stop;
