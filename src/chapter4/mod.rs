pub mod map;
pub mod player;
