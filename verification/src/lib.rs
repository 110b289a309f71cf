//! Data model and maintenance rules for Esterian Conquest game files.
//!
//! The classic game keeps its state in a handful of fixed-layout binary
//! files (`PLAYER.DAT`, `PLANETS.DAT`, `FLEETS.DAT`, ...). This crate
//! decodes and edits those records byte by byte, and holds the yearly
//! maintenance rules that operate on them.
use vstd::prelude::*;

pub mod support;
pub mod game;
pub mod maint;
pub mod mapgen;
pub mod map_export;
pub mod movement_geometry;
pub mod map_dimensions;
pub mod pathfinding;
pub mod player_mail;
pub mod records;
pub mod report_blocks;
pub mod starmap;
pub mod storage;
pub mod text;

pub use game::CoreGameData;
pub use records::base::{BaseDat, BaseRecord};
pub use records::conquest::ConquestDat;
pub use records::database::{
    DatabaseDat, DatabaseRecord, DATABASE_DAT_SIZE, DATABASE_RECORD_COUNT, DATABASE_RECORD_SIZE,
};
pub use records::fleet::{FleetDat, FleetRecord, FleetStandingOrderKind};
pub use records::ipbm::{IpbmDat, IpbmRecord};
pub use records::planet::{PlanetDat, PlanetRecord};
pub use records::player::{DiplomaticRelation, PlayerDat, PlayerRecord};
pub use records::setup::SetupDat;
pub use support::{copy_array, expect_size, trim_ascii_field, ParseError};

verus! {

/// Size in bytes of one `PLAYER.DAT` record.
pub const PLAYER_RECORD_SIZE: usize = 110;
/// Size in bytes of one `PLANETS.DAT` record.
pub const PLANET_RECORD_SIZE: usize = 97;
/// Number of records in `PLANETS.DAT`.
pub const PLANET_RECORD_COUNT: usize = 20;
/// Size in bytes of the whole `PLANETS.DAT` file.
pub const PLANETS_DAT_SIZE: usize = 1940;
/// Size in bytes of one `FLEETS.DAT` record.
pub const FLEET_RECORD_SIZE: usize = 54;
/// Size in bytes of one `BASES.DAT` record.
pub const BASE_RECORD_SIZE: usize = 35;
/// Size in bytes of one `IPBM.DAT` record.
pub const IPBM_RECORD_SIZE: usize = 32;
/// Size in bytes of `SETUP.DAT`.
pub const SETUP_DAT_SIZE: usize = 522;
/// Size in bytes of `CONQUEST.DAT`.
pub const CONQUEST_DAT_SIZE: usize = 2085;
/// The byte stored in `CONQUEST.DAT` for each weekday (Sunday first) on
/// which maintenance is enabled.
pub const MAINTENANCE_DAY_ENABLED_CODES: [u8; 7] = [1, 1, 1, 1, 1, 1, 1];

} // verus!
