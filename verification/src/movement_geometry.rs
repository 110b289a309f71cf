//! Fleet motion bookkeeping kept in the fleet record.
//!
//! Bytes 0x1A..0x1F of a fleet record may hold an exact in-flight position
//! (two little-endian fixed-point words and a marker byte).
use crate::pathfinding::VisibleHazardIntel;
use crate::records::fleet::FleetRecord;
use vstd::prelude::*;

verus! {

/// `raw` with the exact-position bytes 0x1A..=0x1E cleared.
pub open spec fn without_exact_position(raw: Seq<u8>) -> Seq<u8> {
    raw.update(0x1a, 0).update(0x1b, 0).update(0x1c, 0).update(0x1d, 0).update(0x1e, 0)
}

/// Forgets a fleet's exact in-flight position.
pub fn clear_exact_position(fleet: &mut FleetRecord)
    ensures
        final(fleet).raw@ == without_exact_position(old(fleet).raw@),
{
    fleet.raw[0x1a] = 0;
    fleet.raw[0x1b] = 0;
    fleet.raw[0x1c] = 0;
    fleet.raw[0x1d] = 0;
    fleet.raw[0x1e] = 0;
}

/// Restarts a fleet's motion for new orders: byte 0x0D set to 0x80, byte
/// 0x0F cleared, and the exact position forgotten.
pub fn reset_motion_state_for_new_orders(fleet: &mut FleetRecord)
    ensures
        final(fleet).raw@ == without_exact_position(
            old(fleet).raw@.update(0x0d, 0x80).update(0x0f, 0),
        ),
{
    fleet.raw[0x0d] = 0x80;
    fleet.raw[0x0f] = 0x00;
    clear_exact_position(fleet);
}

/// Whether the routing empire knows of no hazard at all.
pub fn visible_hazard_intel_is_empty(intel: &VisibleHazardIntel) -> (r: bool)
    ensures
        r <==> intel.foreign_worlds@.len() == 0 && intel.foreign_starbases@.len() == 0
            && intel.foreign_fleets@.len() == 0 && intel.hostile_blockades@.len() == 0
            && intel.hostile_homeworlds@.len() == 0,
{
    intel.foreign_worlds.len() == 0 && intel.foreign_starbases.len() == 0
        && intel.foreign_fleets.len() == 0 && intel.hostile_blockades.len() == 0
        && intel.hostile_homeworlds.len() == 0
}

} // verus!
