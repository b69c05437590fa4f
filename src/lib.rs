//! Rules engine of a four-player race board game in the Parcheesi family: the
//! board and each color's route, legality of single moves and of whole turns,
//! the dice of a turn, a search for legal moves, the turn orchestrator, simple
//! move policies, and the XML text of the game protocol.

pub mod autoplayers;
pub mod board;
pub mod deserialize;
pub mod dice;
pub mod game;
pub mod gametree;
pub mod geometry;
pub mod legality;
pub mod moves;
pub mod render;
pub mod xml;
