//! A discrete-time forest simulation: trees grow, age, fall and burn on a
//! fixed square grid, one tick at a time.

pub mod cell;
pub mod census;
pub mod engine;
pub mod grid;
pub mod laws;
pub mod pending;
pub mod position;
pub mod reproduce;
pub mod resolve;
pub mod rng;
pub mod scan;
pub mod scheduler;
pub mod treefall;
