//! The campaign store's data model: planet intelligence and campaign
//! settings. Reading and writing the store itself is done outside this
//! library.
pub mod report_blocks;
pub mod settings;

use crate::game::CoreGameData;
use crate::player_mail::QueuedPlayerMail;
use crate::report_blocks::ReportBlockRow;
use crate::starmap::PlayerStarmapWorld;
use vstd::prelude::*;

verus! {

/// File name of the campaign database inside a game directory.
pub const DEFAULT_CAMPAIGN_DB_NAME: &'static str = "ecgame.db";

/// How much an empire knows of a planet, best first.
#[derive(Debug, Clone, Copy, PartialEq, Eq, Structural, PartialOrd, Ord)]
pub enum IntelTier {
    Owned,
    Full,
    Partial,
    Unknown,
}

/// The tier for the known fields: the viewer's own world is `Owned`; known
/// armies or batteries make it `Full`; a known name, owner or potential
/// makes it `Partial`; else `Unknown`.
pub open spec fn tier_for(
    viewer_empire_id: u8,
    known_owner_empire_id: Option<u8>,
    name_known: bool,
    potential_known: bool,
    armies_known: bool,
    batteries_known: bool,
) -> IntelTier {
    if known_owner_empire_id == Some(viewer_empire_id) {
        IntelTier::Owned
    } else if armies_known || batteries_known {
        IntelTier::Full
    } else if name_known || known_owner_empire_id is Some || potential_known {
        IntelTier::Partial
    } else {
        IntelTier::Unknown
    }
}

/// The name under which a tier is stored.
pub open spec fn tier_name(t: IntelTier) -> Seq<char> {
    match t {
        IntelTier::Owned => "owned"@,
        IntelTier::Full => "full"@,
        IntelTier::Partial => "partial"@,
        IntelTier::Unknown => "unknown"@,
    }
}

impl IntelTier {
    /// The tier of what `viewer_empire_id` knows of `world`.
    pub fn infer_from_world(viewer_empire_id: u8, world: &PlayerStarmapWorld) -> (r: IntelTier)
        ensures
            r == tier_for(
                viewer_empire_id,
                world.known_owner_empire_id,
                world.known_name is Some,
                world.known_potential_production is Some,
                world.known_armies is Some,
                world.known_ground_batteries is Some,
            ),
    {
        let name = match &world.known_name {
            Some(s) => Some(s.as_str()),
            None => None,
        };
        Self::infer_from_fields(
            viewer_empire_id,
            world.known_owner_empire_id,
            name,
            world.known_potential_production,
            world.known_armies,
            world.known_ground_batteries,
        )
    }

    /// The tier of the given known fields.
    pub fn infer_from_fields(
        viewer_empire_id: u8,
        known_owner_empire_id: Option<u8>,
        known_name: Option<&str>,
        known_potential_production: Option<u16>,
        known_armies: Option<u8>,
        known_ground_batteries: Option<u8>,
    ) -> (r: IntelTier)
        ensures
            r == tier_for(
                viewer_empire_id,
                known_owner_empire_id,
                known_name is Some,
                known_potential_production is Some,
                known_armies is Some,
                known_ground_batteries is Some,
            ),
    {
        let owned = match known_owner_empire_id {
            Some(id) => id == viewer_empire_id,
            None => false,
        };
        if owned {
            IntelTier::Owned
        } else if known_armies.is_some() || known_ground_batteries.is_some() {
            IntelTier::Full
        } else if known_name.is_some() || known_owner_empire_id.is_some()
            || known_potential_production.is_some() {
            IntelTier::Partial
        } else {
            IntelTier::Unknown
        }
    }

    /// The name under which the tier is stored.
    pub fn as_str(self) -> (r: &'static str)
        ensures
            r@ == tier_name(self),
    {
        match self {
            IntelTier::Owned => "owned",
            IntelTier::Full => "full",
            IntelTier::Partial => "partial",
            IntelTier::Unknown => "unknown",
        }
    }

    /// The tier stored under `value`; any other name reads as `Unknown`.
    pub fn from_str(value: &str) -> (r: IntelTier)
        ensures
            r == if value@ == "owned"@ {
                IntelTier::Owned
            } else if value@ == "full"@ {
                IntelTier::Full
            } else if value@ == "partial"@ {
                IntelTier::Partial
            } else {
                IntelTier::Unknown
            },
    {
        if crate::text::str_eq(value, "owned") {
            IntelTier::Owned
        } else if crate::text::str_eq(value, "full") {
            IntelTier::Full
        } else if crate::text::str_eq(value, "partial") {
            IntelTier::Partial
        } else {
            IntelTier::Unknown
        }
    }
}

/// A tier read back from its stored name is the same tier.
pub proof fn lemma_tier_name_roundtrip(t: IntelTier)
    ensures
        (if tier_name(t) == "owned"@ {
            IntelTier::Owned
        } else if tier_name(t) == "full"@ {
            IntelTier::Full
        } else if tier_name(t) == "partial"@ {
            IntelTier::Partial
        } else {
            IntelTier::Unknown
        }) == t,
{
    reveal_strlit("owned");
    reveal_strlit("full");
    reveal_strlit("partial");
    reveal_strlit("unknown");
    assert("owned"@.len() == 5 && "full"@.len() == 4 && "partial"@.len() == 7);
    assert("unknown"@.len() == 7 && "partial"@[0] != "unknown"@[0]);
}

/// What an empire last learned of a planet.
#[derive(Debug, Clone, PartialEq, Eq)]
pub struct PlanetIntelSnapshot {
    pub planet_record_index_1_based: usize,
    pub intel_tier: IntelTier,
    pub compat_is_orbit_seed: bool,
    pub last_intel_year: Option<u16>,
    pub seen_year: Option<u16>,
    pub scout_year: Option<u16>,
    pub known_name: Option<String>,
    pub known_owner_empire_id: Option<u8>,
    pub known_potential_production: Option<u16>,
    pub known_armies: Option<u8>,
    pub known_ground_batteries: Option<u8>,
    pub known_current_production: Option<u8>,
    pub known_stored_points: Option<u16>,
    pub known_docked_summary: Option<String>,
    pub known_orbit_summary: Option<String>,
    pub compat_word_1e: Option<u16>,
}

/// A campaign snapshot as loaded from the store: the game files, the
/// structured report blocks (the authoritative review state) and the queued
/// mail.
#[derive(Debug, Clone, PartialEq, Eq)]
pub struct CampaignRuntimeState {
    pub snapshot_id: i64,
    pub game_year: u16,
    pub campaign_seed: u64,
    pub game_data: CoreGameData,
    pub report_block_rows: Vec<ReportBlockRow>,
    pub queued_mail: Vec<QueuedPlayerMail>,
}

} // verus!
