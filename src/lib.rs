//! Discrete core of a trailing-body creature: the movement command that
//! drives the head and the store of recorded head positions (the trace)
//! that the body is sampled from.

pub mod movement;
pub mod trace;

pub use movement::SnakeMoveDirection;
