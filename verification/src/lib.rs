//! The movement engine of a snake game on a bounded grid: arena geometry, the
//! movement clock, direction intent, the step that advances the head and lets
//! the chain of segments follow, food consumption, growth and termination.
//! Coordinates are integers in world units; every function carries a contract
//! over the mathematical model of the world.

pub mod vector;
pub mod direction;
pub mod constants;
pub mod arena;
pub mod clock;
pub mod input;
pub mod wall;
pub mod snake;
pub mod engine;
pub mod chain;
pub mod score;
pub mod random;
pub mod world;
pub mod soundness;
pub mod bus;
pub mod laws;
