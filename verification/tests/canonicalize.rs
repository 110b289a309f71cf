use ec_data::maint::events::FleetBattlePerspective;
use ec_data::maint::{
    canonicalize_events, CampaignOutlookEvent, CivilDisorderEvent, ColonizationResolvedEvent,
    FleetBattleEvent, MaintenanceEvents, Mission, MissionEvent, MissionOutcome, ShipLosses,
};
use ec_data::{
    BaseDat, ConquestDat, CoreGameData, FleetDat, FleetRecord, IpbmDat, PlanetDat, PlayerDat,
    SetupDat, CONQUEST_DAT_SIZE, FLEET_RECORD_SIZE, PLANETS_DAT_SIZE, SETUP_DAT_SIZE,
};

fn minimal_game_data() -> CoreGameData {
    CoreGameData {
        player: PlayerDat { records: Vec::new() },
        planets: PlanetDat::parse(&vec![0u8; PLANETS_DAT_SIZE]).expect("planets"),
        fleets: FleetDat { records: Vec::new() },
        bases: BaseDat { records: Vec::new() },
        ipbm: IpbmDat { records: Vec::new() },
        setup: SetupDat::parse(&vec![0u8; SETUP_DAT_SIZE]).expect("setup"),
        conquest: ConquestDat::parse(&vec![0u8; CONQUEST_DAT_SIZE]).expect("conquest"),
    }
}

fn make_mission_event(kind: Mission, outcome: MissionOutcome) -> MissionEvent {
    MissionEvent {
        fleet_idx: 0,
        owner_empire_raw: 1,
        kind,
        outcome,
        planet_idx: None,
        location_coords: None,
        target_coords: None,
        stardate_week: None,
    }
}

#[test]
fn canonicalize_populates_mission_event_weeks() {
    let game_data = minimal_game_data();
    let mut events = MaintenanceEvents::default();
    events
        .mission_events
        .push(make_mission_event(Mission::MoveOnly, MissionOutcome::Succeeded));
    events
        .mission_events
        .push(make_mission_event(Mission::PatrolSector, MissionOutcome::Arrived));
    canonicalize_events(&mut events, &game_data);
    assert!(events.mission_events.iter().all(|e| e.stardate_week.is_some()));
}

#[test]
fn canonicalize_sorts_mission_events_by_week() {
    let game_data = minimal_game_data();
    let mut events = MaintenanceEvents::default();
    events
        .mission_events
        .push(make_mission_event(Mission::ScoutSector, MissionOutcome::Succeeded));
    events
        .mission_events
        .push(make_mission_event(Mission::PatrolSector, MissionOutcome::Arrived));
    canonicalize_events(&mut events, &game_data);
    let weeks: Vec<u8> = events
        .mission_events
        .iter()
        .map(|e| e.stardate_week.unwrap())
        .collect();
    for pair in weeks.windows(2) {
        assert!(pair[0] <= pair[1], "events should be sorted ascending: {:?}", weeks);
    }
}

#[test]
fn fleet_battle_event_gets_week_2() {
    let game_data = minimal_game_data();
    let mut events = MaintenanceEvents::default();
    events.fleet_battle_events.push(FleetBattleEvent {
        reporting_empire_raw: 1,
        reporting_fleet_id: Some(1),
        reporting_mission: Some(Mission::GuardBlockadeWorld),
        perspective: FleetBattlePerspective::Intercepted,
        coords: [5, 5],
        enemy_empires_raw: vec![2],
        primary_enemy_fleet_id: Some(5),
        held_field: true,
        friendly_initial: ShipLosses::default(),
        friendly_losses: ShipLosses::default(),
        enemy_initial: ShipLosses::default(),
        enemy_losses: ShipLosses::default(),
        stardate_week: None,
    });
    canonicalize_events(&mut events, &game_data);
    assert_eq!(events.fleet_battle_events[0].stardate_week, Some(2));
}

#[test]
fn civil_disorder_events_get_week_52() {
    let game_data = minimal_game_data();
    let mut events = MaintenanceEvents::default();
    events.civil_disorder_events.push(CivilDisorderEvent {
        reporting_empire_raw: 1,
        prior_label: "Empire Alpha".to_string(),
        stardate_week: None,
    });
    canonicalize_events(&mut events, &game_data);
    assert_eq!(events.civil_disorder_events[0].stardate_week, Some(52));
}

#[test]
fn campaign_outlook_gets_week_52() {
    let game_data = minimal_game_data();
    let mut events = MaintenanceEvents::default();
    events.campaign_outlook_events.push(CampaignOutlookEvent {
        empire_raw: 1,
        stardate_week: None,
    });
    canonicalize_events(&mut events, &game_data);
    assert_eq!(events.campaign_outlook_events[0].stardate_week, Some(52));
}

#[test]
fn colonization_event_gets_week_from_mission_event() {
    let game_data = minimal_game_data();
    let mut events = MaintenanceEvents::default();
    events.mission_events.push(MissionEvent {
        fleet_idx: 3,
        owner_empire_raw: 1,
        kind: Mission::ColonizeWorld,
        outcome: MissionOutcome::Succeeded,
        planet_idx: Some(5),
        location_coords: Some([10, 10]),
        target_coords: Some([10, 10]),
        stardate_week: Some(30),
    });
    events.colonization_events.push(ColonizationResolvedEvent::Succeeded {
        fleet_idx: 3,
        planet_idx: 5,
        colonizer_empire_raw: 1,
        stardate_week: None,
    });
    canonicalize_events(&mut events, &game_data);
    let col_week = match events.colonization_events[0] {
        ColonizationResolvedEvent::Succeeded { stardate_week, .. } => stardate_week,
        _ => None,
    };
    assert_eq!(col_week, Some(30));
}

#[test]
fn mission_week_follows_fleet_speed_and_code() {
    let mut game_data = minimal_game_data();
    let mut fleet = FleetRecord { raw: [0u8; FLEET_RECORD_SIZE] };
    fleet.set_current_speed(3);
    game_data.fleets.records.push(fleet);
    let mut events = MaintenanceEvents::default();
    events
        .mission_events
        .push(make_mission_event(Mission::ColonizeWorld, MissionOutcome::Succeeded));
    events
        .mission_events
        .push(make_mission_event(Mission::ScoutSector, MissionOutcome::Succeeded));
    events
        .mission_events
        .push(make_mission_event(Mission::GuardStarbase, MissionOutcome::Arrived));
    canonicalize_events(&mut events, &game_data);
    let weeks: Vec<(Mission, u8)> = events
        .mission_events
        .iter()
        .map(|e| (e.kind, e.stardate_week.unwrap()))
        .collect();
    assert_eq!(
        weeks,
        vec![
            (Mission::GuardStarbase, 1),
            (Mission::ColonizeWorld, 32),
            (Mission::ScoutSector, 51),
        ]
    );
}

#[test]
fn sorting_keeps_same_week_events_in_order_and_never_changes_set_weeks() {
    let game_data = minimal_game_data();
    let mut events = MaintenanceEvents::default();
    for (empire, week) in [(1u8, Some(9u8)), (2, None), (3, Some(1)), (4, None), (5, Some(2))] {
        events.campaign_outlook_events.push(CampaignOutlookEvent {
            empire_raw: empire,
            stardate_week: week,
        });
    }
    canonicalize_events(&mut events, &game_data);
    let order: Vec<(u8, Option<u8>)> = events
        .campaign_outlook_events
        .iter()
        .map(|e| (e.empire_raw, e.stardate_week))
        .collect();
    assert_eq!(
        order,
        vec![(3, Some(1)), (5, Some(2)), (1, Some(9)), (2, Some(52)), (4, Some(52))]
    );
}

#[test]
fn canonicalizing_twice_gives_what_once_gave() {
    let game_data = minimal_game_data();
    let mut events = MaintenanceEvents::default();
    events
        .mission_events
        .push(make_mission_event(Mission::ScoutSector, MissionOutcome::Succeeded));
    events
        .mission_events
        .push(make_mission_event(Mission::PatrolSector, MissionOutcome::Arrived));
    let mut early = make_mission_event(Mission::MoveOnly, MissionOutcome::Arrived);
    early.stardate_week = Some(3);
    events.mission_events.push(early);
    canonicalize_events(&mut events, &game_data);
    assert!(events.mission_events.iter().all(|e| e.stardate_week.is_some()));
    assert_eq!(events.mission_events.len(), 3);
    let once = events.mission_events.clone();
    canonicalize_events(&mut events, &game_data);
    assert_eq!(events.mission_events, once);
}
