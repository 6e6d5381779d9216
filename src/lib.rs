pub mod chapter4;
pub mod components;
pub mod game;
pub mod map;
pub mod map_indexing_system;
pub mod player;
pub mod rect;
pub mod visibility_system;
mod glyph;
mod random;
