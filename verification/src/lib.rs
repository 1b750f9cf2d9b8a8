//! Dungeon levels of a classic role-playing game, rebuilt from the game's
//! packed data files: the rooms, the block grid of each level, the tile that
//! stands at each coordinate, the atlas of tile pictures, the layout of a
//! level without wrapping, and the picture of a level.

pub mod error;
pub mod terrain;
pub mod palette;
pub mod block;
pub mod floor;
pub mod coord_map;
pub mod combat_map;
pub mod dungeon;
pub mod game;
pub mod unpack;
pub mod atlas;
pub mod unfold;
pub mod render;
pub mod text;
