//! A verified engine for turn-based grid games such as Tic-Tac-Toe and
//! Connect-4: board state, move validation, placement (including gravity
//! drops), win and tie detection, and the turn state machine.

/// The trivial computer player: it draws one of the currently valid moves.
pub mod ai_engine;
/// The game aggregate: board, mode, outcome state and turn counter.
pub mod game;
/// The rules: move validation, placement, win and tie detection, and the
/// turn state machine.
pub mod game_engine;
/// Player records and the board markers (sprites) that stand for them.
pub mod player;
/// Flat player profiles that track wins by name and marker string.
pub mod players;
