//! A train-routing puzzle on a board of seven by seven tiles.
//!
//! Colored trains leave their sources, follow the track that the player has
//! drawn, mix where they meet, are split and repainted by special tiles, and
//! must all arrive at sinks that desire their colors. The yard advances in
//! half steps: in one the tiles tick, in the other the trains cross the edges
//! between tiles.

pub mod color;
pub mod connection;
pub mod edge;
pub mod levels;
pub mod tile;
pub mod yard;
pub mod yard_laws;
pub mod text;
pub mod level_text;
pub mod gameplay;
