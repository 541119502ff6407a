//! Sokoban: levels read from puzzle-set text, the rules of moving and pushing,
//! undo, the board as terminal text, and the decisions of the game loop.
pub mod text;
pub mod game;
pub mod laws;
pub mod level;
pub mod colorize;
pub mod render;
pub mod touch_input;
pub mod session;
