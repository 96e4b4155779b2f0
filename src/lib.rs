pub mod chess;
pub mod clock;
pub mod engine;
pub mod game;
pub mod options;
pub mod protocol;
pub mod rules;
pub mod tournament;
pub mod uci;
