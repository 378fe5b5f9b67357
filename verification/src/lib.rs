//! Decision engine for the queen of a two-player, tick-driven strategy game.
//!
//! Every tick the engine receives a full observation of the board and answers
//! with a queen command and a training command. All geometry is carried out in
//! exact integer arithmetic, so every decision below is a function of the
//! observation and the persisted task alone.

pub mod arith;
pub mod command;
pub mod context;
pub mod engine;
pub mod owner;
pub mod point;
pub mod policy;
pub mod site;
pub mod task;
pub mod text;
pub mod unit;
