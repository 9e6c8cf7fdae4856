pub mod board;
pub mod field_board;
pub mod ghost_house;
pub mod pacmap;
pub mod tile_map;
