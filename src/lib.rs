//! The verified core of a breakout game: the ball, the paddle and a grid of blocks,
//! moved and collided frame by frame in exact integer arithmetic, under a state
//! machine that starts, wins and restarts the game.
//!
//! - `config`: the dimensions and tuning of the game, in fixed-point units.
//! - `vector`: integer vectors and scaling by a ratio.
//! - `speed`: the speed governor, which keeps the ball's speed in its legal band.
//! - `entities`: the ball, the paddle, the blocks and the block grid.
//! - `motion`: paddle steering and ball movement.
//! - `collision`: the ball against the walls, the paddle and the blocks.
//! - `bump`: the paddle bump and the bounds watchdog.
//! - `game`: the game state machine and the frame pipeline.
pub mod bump;
pub mod collision;
pub mod config;
pub mod entities;
pub mod game;
pub mod motion;
pub mod speed;
pub mod vector;
