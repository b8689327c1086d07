//! Super tic-tac-toe: a 3x3 grid of 3x3 sub-boards. Winning a sub-board
//! claims the matching cell on a meta-board; winning the meta-board wins
//! the game. This crate holds the verified game engine (move legality,
//! nested win detection, turn and restriction management) and the session
//! rules that gate moves by the connection's role.

pub mod game;
pub mod laws;
pub mod session;

