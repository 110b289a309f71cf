//! Fixed-layout records of the classic game files.
pub mod base;
pub mod bytes;
pub mod ipbm;
pub mod setup;
pub mod fleet;
pub mod planet;
pub mod database;
pub mod conquest;
pub mod player;
