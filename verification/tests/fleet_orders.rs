use ec_data::maint::combat::{
    apply_blitz_landing_fire, apply_roe_retreat_to_task_force, build_task_forces_at_location,
    clear_arrival_and_hold, clear_empty_withdrawn_fleets,
    contact_reporting_kind, distribute_fleet_losses, effective_diplomatic_relation,
    fleet_is_at_system_context, hostility_reason_between, HostilityReason,
    has_anchored_guard_order, has_patrol_order, mission_kind_for_fleet, mission_kind_for_order,
    retreat_task_force, select_orbital_supremacy_empire, set_fleet_to_hold_current_position,
    push_contact_event_for_task_force, task_force_encounter_context, FleetBattlePhaseEvents,
    task_force_role, BattleRole, EncounterContext, FleetCombatState, TaskForce,
};
use ec_data::maint::movement::{
    queue_local_intrusion_escalation, set_fleet_to_deep_space_hold, MovementEvents,
};
use ec_data::maint::{ContactReportSource, DiplomacyOverride, Mission, ScoutContactEvent};
use ec_data::records::fleet::FleetStandingOrderKind;
use ec_data::{
    DiplomaticRelation, PlayerRecord,
    BaseDat, ConquestDat, CoreGameData, FleetDat, FleetRecord, IpbmDat, PlanetDat, PlayerDat,
    SetupDat, CONQUEST_DAT_SIZE, FLEET_RECORD_SIZE, PLANETS_DAT_SIZE, SETUP_DAT_SIZE,
};

fn game(fleets: Vec<FleetRecord>) -> CoreGameData {
    CoreGameData {
        player: PlayerDat { records: Vec::new() },
        planets: PlanetDat::parse(&vec![0u8; PLANETS_DAT_SIZE]).expect("planets"),
        fleets: FleetDat { records: fleets },
        bases: BaseDat { records: Vec::new() },
        ipbm: IpbmDat { records: Vec::new() },
        setup: SetupDat::parse(&vec![0u8; SETUP_DAT_SIZE]).expect("setup"),
        conquest: ConquestDat::parse(&vec![0u8; CONQUEST_DAT_SIZE]).expect("conquest"),
    }
}

/// A moving fleet at (4, 5) bound for (9, 9) on `order`, with `destroyers`.
fn moving_fleet(order: u8, destroyers: u16) -> FleetRecord {
    let mut raw = [0u8; FLEET_RECORD_SIZE];
    raw[0x09] = 6;
    raw[0x0A] = 4;
    raw[0x0B] = 4;
    raw[0x0C] = 5;
    raw[0x19] = 0x22;
    raw[0x1A] = 0x33;
    raw[0x1E] = 0x42;
    raw[0x1F] = order;
    raw[0x20] = 9;
    raw[0x21] = 9;
    raw[0x25] = 7;
    raw[0x2A..0x2C].copy_from_slice(&destroyers.to_le_bytes());
    raw[0x2E] = 3;
    FleetRecord { raw }
}

fn task_force(empire: u8, fleet_indices: Vec<usize>, coords: [u8; 2]) -> TaskForce {
    TaskForce {
        empire,
        fleet_indices,
        coords,
        state: FleetCombatState { counts: [0; 7], fresh: [0; 7] },
        role: BattleRole::Attacker,
        withdrew_under_roe: false,
        engaged_in_battle: false,
        free_hold_used: false,
    }
}

#[test]
fn hold_in_place_stops_the_fleet_at_its_sector() {
    let mut fleet = moving_fleet(1, 2);
    set_fleet_to_hold_current_position(&mut fleet);
    assert_eq!(fleet.current_speed(), 0);
    assert_eq!(fleet.standing_order_kind(), FleetStandingOrderKind::HoldPosition);
    assert_eq!(fleet.standing_order_target_coords_raw(), [4, 5]);
    assert_eq!(fleet.tuple_c_payload_raw(), [0x81, 0, 0, 0, 0]);
    assert_eq!(fleet.raw[0x1E], 0);
    assert_eq!(fleet.rules_of_engagement(), 7);

    let mut deep = moving_fleet(1, 2);
    set_fleet_to_deep_space_hold(&mut deep);
    assert_eq!(deep.standing_order_target_coords_raw(), [4, 5]);
    assert_eq!(deep.current_speed(), 0);
    assert_eq!(deep.raw[0x1E], 0x42);
}

#[test]
fn emptied_withdrawn_fleets_are_held_and_others_left() {
    let mut data = game(vec![moving_fleet(1, 0), moving_fleet(1, 3), moving_fleet(1, 0)]);
    clear_empty_withdrawn_fleets(&mut data, &[0, 1]);
    assert_eq!(data.fleets.records[0].standing_order_kind(), FleetStandingOrderKind::HoldPosition);
    assert_eq!(data.fleets.records[0].rules_of_engagement(), 0);
    assert_eq!(data.fleets.records[1].raw, moving_fleet(1, 3).raw);
    assert_eq!(data.fleets.records[2].raw, moving_fleet(1, 0).raw);
}

#[test]
fn roe_retreat_sends_armed_fleets_home() {
    let mut data = game(vec![moving_fleet(6, 2), moving_fleet(6, 0)]);
    apply_roe_retreat_to_task_force(&mut data, &[0, 1], [2, 3]);
    let f = &data.fleets.records[0];
    assert_eq!(f.standing_order_kind(), FleetStandingOrderKind::SeekHome);
    assert_eq!(f.standing_order_target_coords_raw(), [2, 3]);
    assert_eq!(f.current_speed(), 3);
    assert_eq!(f.rules_of_engagement(), 0);
    assert_eq!([f.raw[0x0D], f.raw[0x0E], f.raw[0x10], f.raw[0x11], f.raw[0x12]], [0x7F, 0xC0, 0xFF, 0xFF, 0x7F]);
    assert_eq!(f.raw[0x19], 0);
    assert_eq!(data.fleets.records[1].raw, moving_fleet(6, 0).raw);
}

#[test]
fn retreat_heads_for_the_nearest_owned_world() {
    let mut data = game(vec![moving_fleet(6, 2), moving_fleet(6, 0), moving_fleet(6, 1)]);
    data.planets.records[3].raw[0] = 1;
    data.planets.records[3].raw[1] = 1;
    data.planets.records[3].raw[0x5D] = 2;
    data.planets.records[5].raw[0] = 8;
    data.planets.records[5].raw[1] = 8;
    data.planets.records[5].raw[0x5D] = 2;
    retreat_task_force(&mut data, &task_force(2, vec![0, 1], [6, 6]));
    assert_eq!(data.fleets.records[0].standing_order_kind(), FleetStandingOrderKind::SeekHome);
    assert_eq!(data.fleets.records[0].standing_order_target_coords_raw(), [8, 8]);
    assert_eq!(data.fleets.records[1].standing_order_kind(), FleetStandingOrderKind::HoldPosition);
    assert_eq!(data.fleets.records[1].standing_order_target_coords_raw(), [4, 5]);
    assert_eq!(data.fleets.records[1].rules_of_engagement(), 0);
    assert_eq!(data.fleets.records[2].raw, moving_fleet(6, 1).raw);

    let mut lost = game(vec![moving_fleet(6, 2)]);
    retreat_task_force(&mut lost, &task_force(4, vec![0], [6, 6]));
    assert_eq!(lost.fleets.records[0].standing_order_target_coords_raw(), [6, 6]);
}

#[test]
fn arrival_hold_holds_every_listed_fleet() {
    let mut data = game(vec![moving_fleet(7, 2), moving_fleet(7, 2)]);
    clear_arrival_and_hold(&mut data, &[1, 1]);
    assert_eq!(data.fleets.records[0].raw, moving_fleet(7, 2).raw);
    assert_eq!(data.fleets.records[1].standing_order_kind(), FleetStandingOrderKind::HoldPosition);
    assert_eq!(data.fleets.records[1].current_speed(), 0);
}

#[test]
fn orders_map_to_reported_missions() {
    assert_eq!(mission_kind_for_order(Some(FleetStandingOrderKind::BlitzWorld)), Some(Mission::BlitzWorld));
    assert_eq!(mission_kind_for_order(Some(FleetStandingOrderKind::Salvage)), None);
    assert_eq!(mission_kind_for_order(None), None);
    assert_eq!(contact_reporting_kind(FleetStandingOrderKind::Salvage), Some(Mission::Salvage));
    assert_eq!(contact_reporting_kind(FleetStandingOrderKind::JoinAnotherFleet), Some(Mission::JoinAnotherFleet));
    assert_eq!(contact_reporting_kind(FleetStandingOrderKind::ColonizeWorld), None);
    assert_eq!(contact_reporting_kind(FleetStandingOrderKind::HoldPosition), None);
    assert_eq!(mission_kind_for_fleet(3, &[3], &[3], &[3]), Some(Mission::BlitzWorld));
    assert_eq!(mission_kind_for_fleet(3, &[3], &[3], &[]), Some(Mission::InvadeWorld));
    assert_eq!(mission_kind_for_fleet(3, &[3], &[], &[1]), Some(Mission::BombardWorld));
    assert_eq!(mission_kind_for_fleet(3, &[2], &[], &[1]), None);
}

#[test]
fn system_context_and_guard_orders() {
    let mut at_target = moving_fleet(4, 1);
    at_target.set_standing_order_target_coords_raw([4, 5]);
    assert!(fleet_is_at_system_context(&at_target));
    assert!(!fleet_is_at_system_context(&moving_fleet(4, 1)));
    let mut mover = at_target.clone();
    mover.set_standing_order_kind(FleetStandingOrderKind::MoveOnly);
    assert!(!fleet_is_at_system_context(&mover));

    let data = game(vec![moving_fleet(1, 1), moving_fleet(5, 1), moving_fleet(3, 1)]);
    assert!(has_anchored_guard_order(&data, &[0, 1]));
    assert!(!has_anchored_guard_order(&data, &[0, 2]));
    assert!(has_patrol_order(&data, &[2]));
    assert!(!has_patrol_order(&data, &[0, 1]));
}

#[test]
fn intrusion_escalates_only_between_two_empires() {
    let mut events = MovementEvents::default();
    queue_local_intrusion_escalation(&mut events, 1, 2);
    queue_local_intrusion_escalation(&mut events, 1, 1);
    queue_local_intrusion_escalation(&mut events, 0, 2);
    assert_eq!(events.diplomatic_escalation_events.len(), 1);
    assert_eq!(events.diplomatic_escalation_events[0].left_empire_raw, 1);
    assert_eq!(events.diplomatic_escalation_events[0].right_empire_raw, 2);
}

#[test]
fn order_codes_round_trip() {
    for code in 0u8..=255 {
        assert_eq!(FleetStandingOrderKind::from_raw(code).to_raw(), code);
    }
    let mut f = moving_fleet(1, 1);
    f.set_rules_of_engagement(9);
    assert_eq!(f.rules_of_engagement(), 9);
}

fn armed(dd: u16, ca: u16, bb: u16, sc: u8, tt: u16, army: u16, et: u16) -> FleetRecord {
    let mut f = moving_fleet(1, dd);
    f.set_cruiser_count(ca);
    f.set_battleship_count(bb);
    f.set_scout_count(sc);
    f.set_troop_transport_count(tt);
    f.set_army_count(army);
    f.set_etac_count(et);
    f
}

#[test]
fn losses_are_taken_from_fleets_in_list_order() {
    let mut data = game(vec![armed(2, 1, 0, 1, 2, 5, 0), armed(3, 0, 1, 0, 1, 1, 2)]);
    let before = FleetCombatState { counts: [5, 1, 1, 0, 1, 3, 2], fresh: [0; 7] };
    let after = FleetCombatState { counts: [1, 1, 0, 0, 0, 1, 2], fresh: [0; 7] };
    distribute_fleet_losses(&mut data, &[0, 1], &before, &after);
    let a = &data.fleets.records[0];
    let b = &data.fleets.records[1];
    // Four destroyers: both of the first fleet, then two of the second.
    assert_eq!((a.destroyer_count(), b.destroyer_count()), (0, 1));
    assert_eq!((a.cruiser_count(), b.cruiser_count()), (1, 0));
    // One battleship, which only the second fleet has.
    assert_eq!((a.battleship_count(), b.battleship_count()), (0, 0));
    // One scout and two transports; each transport lost takes an army.
    assert_eq!(a.scout_count(), 0);
    assert_eq!((a.troop_transport_count(), b.troop_transport_count()), (0, 1));
    assert_eq!((a.army_count(), b.army_count()), (3, 1));
    assert_eq!((a.etac_count(), b.etac_count()), (0, 2));

    // More losses than hulls: every listed fleet is stripped of the class.
    let mut data = game(vec![armed(2, 0, 0, 0, 0, 0, 0), armed(1, 0, 0, 0, 0, 0, 0)]);
    let before = FleetCombatState { counts: [9, 0, 0, 0, 0, 0, 0], fresh: [0; 7] };
    let after = FleetCombatState { counts: [0; 7], fresh: [0; 7] };
    distribute_fleet_losses(&mut data, &[0, 1], &before, &after);
    assert_eq!(data.fleets.records[0].destroyer_count(), 0);
    assert_eq!(data.fleets.records[1].destroyer_count(), 0);
}

#[test]
fn encounter_context_follows_orders_and_starbases() {
    let mut at_target = moving_fleet(4, 1);
    at_target.set_standing_order_target_coords_raw([4, 5]);
    let data = game(vec![at_target, moving_fleet(3, 1), moving_fleet(1, 1)]);
    assert_eq!(task_force_encounter_context(&data, &task_force(1, vec![0, 2], [4, 5])), EncounterContext::SystemEntry);
    assert_eq!(task_force_encounter_context(&data, &task_force(1, vec![1, 2], [4, 5])), EncounterContext::SectorPatrol);
    assert_eq!(task_force_encounter_context(&data, &task_force(1, vec![2], [4, 5])), EncounterContext::DeepSpaceTransit);
    let mut with_base = task_force(1, vec![2], [4, 5]);
    with_base.state.counts[3] = 1;
    assert_eq!(task_force_encounter_context(&data, &with_base), EncounterContext::SystemEntry);
}

#[test]
fn battle_role_depends_on_world_owner_and_orders() {
    let mut data = game(vec![moving_fleet(5, 1), moving_fleet(1, 1)]);
    data.planets.records[2].raw[0] = 4;
    data.planets.records[2].raw[1] = 5;
    data.planets.records[2].raw[0x5D] = 3;
    assert_eq!(task_force_role(&data, 3, [4, 5], &[1]), BattleRole::IncumbentDefender);
    assert_eq!(task_force_role(&data, 2, [4, 5], &[0, 1]), BattleRole::GuardingDefender);
    assert_eq!(task_force_role(&data, 2, [4, 5], &[1]), BattleRole::Attacker);
    assert_eq!(task_force_role(&data, 2, [4, 5], &[]), BattleRole::Neutral);
    assert_eq!(task_force_role(&data, 3, [6, 6], &[]), BattleRole::Neutral);
}

#[test]
fn orbital_supremacy_goes_to_the_strongest_contender() {
    let mut cruiser = moving_fleet(6, 0);
    cruiser.set_cruiser_count(1);
    let mut data = game(vec![
        moving_fleet(6, 2),
        cruiser,
        moving_fleet(6, 3),
        moving_fleet(2, 9),
    ]);
    data.planets.records[2].raw[0] = 4;
    data.planets.records[2].raw[1] = 5;
    data.planets.records[2].raw[0x5D] = 3;
    assert_eq!(select_orbital_supremacy_empire(&data, 2, &[]), None);
    assert_eq!(
        select_orbital_supremacy_empire(&data, 2, &[(1, vec![0]), (2, vec![1])]),
        Some(2)
    );
    // A tie at the top without the owner: nobody holds the orbit.
    assert_eq!(
        select_orbital_supremacy_empire(&data, 2, &[(1, vec![2]), (2, vec![1])]),
        None
    );
    // A tie at the top with the owner: the owner holds it.
    assert_eq!(
        select_orbital_supremacy_empire(&data, 2, &[(1, vec![2]), (3, vec![1])]),
        Some(3)
    );
    // Fleets heading home under way do not contend, however strong.
    assert_eq!(
        select_orbital_supremacy_empire(&data, 2, &[(4, vec![3]), (1, vec![0])]),
        Some(1)
    );
    // An entrant with no fleets does not contend.
    assert_eq!(select_orbital_supremacy_empire(&data, 2, &[(3, vec![])]), None);
}

#[test]
fn landing_fire_takes_transports_then_escorts_then_armies() {
    let mut data = game(vec![armed(1, 1, 0, 0, 2, 4, 0), armed(0, 0, 2, 0, 1, 1, 0)]);
    let (armies, losses) = apply_blitz_landing_fire(&mut data, &[0, 1], 2);
    assert_eq!(armies, 2);
    assert_eq!(losses.transports, 2);
    assert_eq!(losses.destroyers, 0);
    assert_eq!(data.fleets.records[0].troop_transport_count(), 0);
    assert_eq!(data.fleets.records[0].army_count(), 2);
    assert_eq!(data.fleets.records[1].troop_transport_count(), 1);

    let mut data = game(vec![armed(1, 1, 0, 0, 2, 4, 0), armed(0, 0, 2, 0, 1, 1, 0)]);
    let (armies, losses) = apply_blitz_landing_fire(&mut data, &[0, 1], 9);
    // Three transports, then a destroyer, a cruiser and two battleships;
    // the two shots left each kill a landing army.
    assert_eq!(losses.transports, 3);
    assert_eq!((losses.destroyers, losses.cruisers, losses.battleships), (1, 1, 2));
    assert_eq!(armies, 3 + 2);
    assert_eq!(armies + losses.destroyers + losses.cruisers + losses.battleships, 9);
    assert_eq!(data.fleets.records[1].army_count(), 0);
    assert_eq!(data.fleets.records[1].battleship_count(), 0);

    let mut data = game(vec![armed(1, 0, 0, 0, 1, 1, 0)]);
    let (armies, losses) = apply_blitz_landing_fire(&mut data, &[0], 0);
    assert_eq!((armies, losses.transports), (0, 0));
    assert_eq!(data.fleets.records[0].raw, armed(1, 0, 0, 0, 1, 1, 0).raw);
}

fn enemy(from: u8, to: u8) -> DiplomacyOverride {
    DiplomacyOverride { from_empire_raw: from, to_empire_raw: to, relation: DiplomaticRelation::Enemy }
}

#[test]
fn relations_come_from_overrides_then_player_records() {
    let mut data = game(vec![]);
    let mut first = PlayerRecord::new_zeroed();
    assert!(first.set_diplomatic_relation_toward(2, DiplomaticRelation::Enemy));
    data.player.records = vec![first, PlayerRecord::new_zeroed()];
    assert_eq!(effective_diplomatic_relation(&data, &[], 1, 2), Some(DiplomaticRelation::Enemy));
    assert_eq!(effective_diplomatic_relation(&data, &[], 2, 1), Some(DiplomaticRelation::Neutral));
    assert_eq!(effective_diplomatic_relation(&data, &[], 3, 1), None);
    let calm = DiplomacyOverride { from_empire_raw: 1, to_empire_raw: 2, relation: DiplomaticRelation::Neutral };
    assert_eq!(
        effective_diplomatic_relation(&data, &[calm, enemy(1, 2)], 1, 2),
        Some(DiplomaticRelation::Neutral)
    );
}

#[test]
fn hostility_follows_relations_and_encounter_context() {
    let mut guard = moving_fleet(4, 1);
    guard.set_standing_order_target_coords_raw([4, 5]);
    let mut data = game(vec![
        guard,
        moving_fleet(1, 1),
        moving_fleet(7, 1),
        moving_fleet(3, 1),
        moving_fleet(3, 1),
    ]);
    let at = [4, 5];
    let tf = |empire: u8, fleets: Vec<usize>| task_force(empire, fleets, at);
    let war = [enemy(2, 1)];
    assert_eq!(hostility_reason_between(&data, &war, at, &tf(1, vec![0]), &tf(1, vec![1])), None);
    // A guard lets enemy traffic pass, but not an assault.
    assert_eq!(hostility_reason_between(&data, &war, at, &tf(1, vec![0]), &tf(2, vec![1])), None);
    assert_eq!(
        hostility_reason_between(&data, &war, at, &tf(1, vec![0]), &tf(2, vec![2])),
        Some(HostilityReason::DefendedSystemEntry)
    );
    assert_eq!(
        hostility_reason_between(&data, &war, at, &tf(1, vec![1]), &tf(2, vec![2])),
        Some(HostilityReason::DeclaredEnemy)
    );
    assert_eq!(
        hostility_reason_between(&data, &war, at, &tf(1, vec![3]), &tf(2, vec![4])),
        Some(HostilityReason::PatrolContact)
    );
    // Without enmity, only a world's owner defends its system.
    assert_eq!(hostility_reason_between(&data, &[], at, &tf(1, vec![0]), &tf(2, vec![1])), None);
    data.planets.records[6].raw[0] = 4;
    data.planets.records[6].raw[1] = 5;
    data.planets.records[6].raw[0x5D] = 2;
    assert_eq!(
        hostility_reason_between(&data, &[], at, &tf(1, vec![0]), &tf(2, vec![1])),
        Some(HostilityReason::DefendedSystemEntry)
    );
    assert_eq!(hostility_reason_between(&data, &[], at, &tf(1, vec![1]), &tf(2, vec![3])), None);
    // The order in which the two sides are named does not matter.
    for (a, b) in [(vec![0], vec![1]), (vec![0], vec![2]), (vec![1], vec![2]), (vec![3], vec![4])] {
        assert_eq!(
            hostility_reason_between(&data, &war, at, &tf(1, a.clone()), &tf(2, b.clone())),
            hostility_reason_between(&data, &war, at, &tf(2, b), &tf(1, a))
        );
    }
}

#[test]
fn task_forces_gather_each_empire_at_a_sector() {
    let owned = |owner: u8, order: u8, dd: u16| {
        let mut f = moving_fleet(order, dd);
        f.set_owner_empire_raw(owner);
        f
    };
    let mut elsewhere = owned(1, 1, 1);
    elsewhere.raw[0x0B] = 9;
    let mut data = game(vec![owned(3, 1, 2), owned(1, 5, 1), elsewhere, owned(3, 1, 1)]);
    let tfs = build_task_forces_at_location(&data, [4, 5]);
    assert_eq!(tfs.len(), 2);
    assert_eq!((tfs[0].empire, tfs[0].fleet_indices.clone()), (1, vec![1]));
    assert_eq!((tfs[1].empire, tfs[1].fleet_indices.clone()), (3, vec![0, 3]));
    assert_eq!(tfs[0].role, BattleRole::GuardingDefender);
    assert_eq!(tfs[1].role, BattleRole::Attacker);
    assert_eq!(tfs[1].state.counts[0], 3);

    // The owner of the world there takes part through its starbases alone.
    data.planets.records[2].raw[0] = 4;
    data.planets.records[2].raw[1] = 5;
    data.planets.records[2].raw[0x5D] = 2;
    let mut base = ec_data::BaseRecord::new_zeroed();
    base.set_coords_raw([4, 5]);
    base.set_owner_empire_raw(2);
    base.set_active_flag_raw(1);
    data.bases.records = vec![base];
    let tfs = build_task_forces_at_location(&data, [4, 5]);
    assert_eq!(tfs.iter().map(|t| t.empire).collect::<Vec<_>>(), vec![1, 2, 3]);
    assert_eq!(tfs[1].fleet_indices, Vec::<usize>::new());
    assert_eq!(tfs[1].state.counts[3], 1);
    assert_eq!(tfs[1].role, BattleRole::IncumbentDefender);
}

#[test]
fn contacts_are_reported_by_each_fleet_and_local_starbase() {
    let owned = |owner: u8, order: u8, id: u8| {
        let mut f = moving_fleet(order, 1);
        f.set_owner_empire_raw(owner);
        f.raw[0x05] = id;
        f
    };
    let mut data = game(vec![owned(1, 1, 11), owned(1, 0, 12), owned(2, 0, 21)]);
    let mut base = ec_data::BaseRecord::new_zeroed();
    base.set_coords_raw([4, 5]);
    base.set_owner_empire_raw(1);
    base.set_active_flag_raw(1);
    base.set_base_id_raw(6);
    let mut idle = base.clone();
    idle.set_active_flag_raw(0);
    data.bases.records = vec![idle, base];
    let watcher = task_force(1, vec![0, 1], [4, 5]);
    let mut target = task_force(2, vec![2], [4, 5]);
    target.state.counts = [3, 1, 2, 0, 1, 0, 0];
    let mut events = FleetBattlePhaseEvents::default();
    push_contact_event_for_task_force(&mut events, &data, [4, 5], &watcher, &target);
    let seen = |viewer, source, reporting| ScoutContactEvent {
        viewer_empire_raw: viewer,
        source,
        reporting_fleet_id: reporting,
        coords: [4, 5],
        target_empire_raw: 2,
        target_fleet_id: Some(21),
        small_vessels: 4,
        medium_vessels: 1,
        large_vessels: 2,
        stardate_week: None,
    };
    assert_eq!(
        events.scout_contact_events,
        vec![
            seen(1, ContactReportSource::FleetMission(Mission::MoveOnly), Some(11)),
            seen(1, ContactReportSource::Fleet(12), Some(12)),
            seen(1, ContactReportSource::Starbase(6), None),
        ]
    );
    assert!(events.fleet_battle_events.is_empty());
}
