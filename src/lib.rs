pub mod config;
pub mod game;
pub mod limit;
pub mod pad;
pub mod transform;
mod chance;
