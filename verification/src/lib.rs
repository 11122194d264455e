//! Synthetic-workload generation for a blockchain node: a cooperative task
//! scheduler, and the simulation driver that turns its ticks into a
//! timestamped, replayable log of actions.
pub mod action;
pub mod directories;
pub mod hex;
pub mod random;
pub mod rpc;
pub mod scheduler;
pub mod simulation;
pub mod timeline;
