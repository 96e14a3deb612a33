//! Flocking simulation engine: the per-step read/write protocol that moves a
//! population of agents, and the neighbor selection that feeds it.
//!
//! The engine is generic over the agent record and the velocity change it
//! computes for each agent, so the same verified protocol drives any
//! steering model.

pub mod config;
pub mod engine;
pub mod neighbors;
