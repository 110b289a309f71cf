//! The full set of game files that maintenance reads and rewrites.
use crate::records::base::BaseDat;
use crate::records::conquest::ConquestDat;
use crate::records::fleet::FleetDat;
use crate::records::ipbm::IpbmDat;
use crate::records::planet::PlanetDat;
use crate::records::player::{relation_toward, DiplomaticRelation, PlayerDat};
use crate::records::setup::SetupDat;
use vstd::prelude::*;

verus! {

/// All decoded game files of one campaign state.
#[derive(Debug, Clone, PartialEq, Eq)]
pub struct CoreGameData {
    pub player: PlayerDat,
    pub planets: PlanetDat,
    pub fleets: FleetDat,
    pub bases: BaseDat,
    pub ipbm: IpbmDat,
    pub setup: SetupDat,
    pub conquest: ConquestDat,
}

/// The relation that empire `from` (1-based) keeps toward empire `to` in
/// its player record; `None` without such a record or stored relation.
pub open spec fn stored_relation(gd: CoreGameData, from: u8, to: u8) -> Option<DiplomaticRelation> {
    if 1 <= from <= gd.player.records@.len() {
        relation_toward(gd.player.records@[from - 1].raw@, to)
    } else {
        None
    }
}

impl CoreGameData {
    /// The relation that empire `from_empire_raw` keeps toward
    /// `to_empire_raw` in its player record.
    pub fn stored_diplomatic_relation(&self, from_empire_raw: u8, to_empire_raw: u8) -> (r: Option<
        DiplomaticRelation,
    >)
        ensures
            r == stored_relation(*self, from_empire_raw, to_empire_raw),
    {
        if from_empire_raw == 0 || from_empire_raw as usize > self.player.records.len() {
            return None;
        }
        self.player.records[from_empire_raw as usize - 1].diplomatic_relation_toward(to_empire_raw)
    }
}

} // verus!
