use ec_data::movement_geometry::{
    clear_exact_position, reset_motion_state_for_new_orders, visible_hazard_intel_is_empty,
};
use ec_data::pathfinding::VisibleHazardIntel;
use ec_data::{FleetRecord, FLEET_RECORD_SIZE};

fn fleet_with_position() -> FleetRecord {
    let mut raw = [0x11u8; FLEET_RECORD_SIZE];
    raw[0x1e] = 0x42;
    FleetRecord { raw }
}

#[test]
fn clearing_the_exact_position_zeroes_its_bytes() {
    let mut fleet = fleet_with_position();
    clear_exact_position(&mut fleet);
    assert_eq!(&fleet.raw[0x1a..0x1f], &[0, 0, 0, 0, 0]);
    assert_eq!(fleet.raw[0x19], 0x11);
    assert_eq!(fleet.raw[0x1f], 0x11);
}

#[test]
fn new_orders_reset_motion() {
    let mut fleet = fleet_with_position();
    reset_motion_state_for_new_orders(&mut fleet);
    assert_eq!(fleet.raw[0x0d], 0x80);
    assert_eq!(fleet.raw[0x0f], 0x00);
    assert_eq!(fleet.raw[0x0e], 0x11);
    assert_eq!(&fleet.raw[0x1a..0x1f], &[0, 0, 0, 0, 0]);
}

#[test]
fn hazard_intel_is_empty_only_without_any_hazard() {
    let mut intel = VisibleHazardIntel {
        foreign_worlds: Vec::new(),
        foreign_starbases: Vec::new(),
        foreign_fleets: Vec::new(),
        hostile_blockades: Vec::new(),
        hostile_homeworlds: Vec::new(),
    };
    assert!(visible_hazard_intel_is_empty(&intel));
    intel.hostile_homeworlds.push([3, 3]);
    assert!(!visible_hazard_intel_is_empty(&intel));
}
