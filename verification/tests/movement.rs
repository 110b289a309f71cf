use ec_data::maint::movement::{
    fleet_has_presence, remap_movement_event_fleet_indices_after_removal, route_step_for_move,
    ColonizationEvent, MovementEvents,
};
use ec_data::pathfinding::{PlannedRoute, RouteStep};
use ec_data::maint::{Mission, MissionEvent, MissionOutcome};
use ec_data::{FleetRecord, FLEET_RECORD_SIZE};

fn colonization(fleet_idx: usize) -> ColonizationEvent {
    ColonizationEvent {
        fleet_idx,
        coords: [fleet_idx as u8, 1],
        owner_empire: 1,
    }
}

fn mission(fleet_idx: usize) -> MissionEvent {
    MissionEvent {
        fleet_idx,
        owner_empire_raw: 1,
        kind: Mission::MoveOnly,
        outcome: MissionOutcome::Succeeded,
        planet_idx: None,
        location_coords: None,
        target_coords: None,
        stardate_week: None,
    }
}

#[test]
fn removal_drops_and_renumbers_events() {
    let mut events = MovementEvents::default();
    events.colonization_events = vec![colonization(0), colonization(1), colonization(3), colonization(7)];
    events.mission_events = vec![mission(2), mission(1), mission(4)];
    let to_remove = [false, true, false, true, false];
    remap_movement_event_fleet_indices_after_removal(&mut events, &to_remove);
    let colonized: Vec<(usize, [u8; 2])> = events
        .colonization_events
        .iter()
        .map(|e| (e.fleet_idx, e.coords))
        .collect();
    assert_eq!(colonized, vec![(0, [0, 1]), (7, [7, 1])]);
    let missions: Vec<usize> = events.mission_events.iter().map(|e| e.fleet_idx).collect();
    assert_eq!(missions, vec![1, 2]);
}

#[test]
fn fleet_presence_counts_ships_and_armies() {
    let mut raw = [0u8; FLEET_RECORD_SIZE];
    assert!(!fleet_has_presence(&FleetRecord { raw }));
    raw[0x2E] = 1;
    assert!(fleet_has_presence(&FleetRecord { raw }));
    raw[0x2E] = 0;
    raw[0x31] = 1;
    assert!(fleet_has_presence(&FleetRecord { raw }));
}

#[test]
fn route_step_follows_long_routes_only() {
    let route = PlannedRoute {
        steps: vec![
            RouteStep { coords: [1, 1] },
            RouteStep { coords: [2, 2] },
            RouteStep { coords: [3, 3] },
            RouteStep { coords: [4, 4] },
        ],
    };
    assert_eq!(route_step_for_move(Some(&route), [4, 4], 2), Some([3, 3]));
    assert_eq!(route_step_for_move(Some(&route), [4, 4], 1), Some([2, 2]));
    // Reaching the target itself is left to the straight-line move.
    assert_eq!(route_step_for_move(Some(&route), [4, 4], 5), None);
    assert_eq!(route_step_for_move(Some(&route), [4, 4], 0), None);
    assert_eq!(route_step_for_move(None, [4, 4], 2), None);
    let short = PlannedRoute {
        steps: vec![RouteStep { coords: [1, 1] }, RouteStep { coords: [2, 2] }],
    };
    assert_eq!(route_step_for_move(Some(&short), [2, 2], 1), None);
}

#[test]
fn renumbered_events_point_at_the_same_fleets_after_removal() {
    let fleet_ids = vec![10u8, 11, 12, 13, 14];
    let to_remove = vec![false, true, false, true, false];
    let mut events = MovementEvents::default();
    events.colonization_events = vec![colonization(0), colonization(2), colonization(4)];
    let before: Vec<u8> = events
        .colonization_events
        .iter()
        .map(|e| fleet_ids[e.fleet_idx])
        .collect();
    remap_movement_event_fleet_indices_after_removal(&mut events, &to_remove);
    let kept: Vec<u8> = fleet_ids
        .iter()
        .zip(to_remove.iter())
        .filter(|(_, removed)| !**removed)
        .map(|(id, _)| *id)
        .collect();
    let after: Vec<u8> = events.colonization_events.iter().map(|e| kept[e.fleet_idx]).collect();
    assert_eq!(before, after);
    assert_eq!(after, vec![10, 12, 14]);
}
