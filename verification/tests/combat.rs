use ec_data::maint::combat::{
    apply_hits_to_fleet, blitz_cover_hits, bombard_attack_as, dominant_empire_after_battle,
    fleet_combat_priority, fleet_state_from_records, fresh_steps_for_ds, ground_cer_percent,
    hits_from, hostile_target_priority, hostility_requires_forced_engagement, mission_priority,
    nearest_owned_planet, planet_idx_at_coords, pursuit_cer_percent, reduce_stardock,
    remove_destroyed_starbases, rule_threshold_satisfied, ship_counts_from_state,
    ship_losses_from_states, space_cer_percent, starbase_count_at, tf_has_any_units,
    vessel_size_summary, BattleRole, FleetCombatState, HostilityReason, MissionClass, TaskForce,
    preferred_reporting_fleet_id, preferred_reporting_fleet_index, report_perspective_for_mission,
    single_named_fleet_id,
};
use ec_data::maint::events::FleetBattlePerspective;
use ec_data::maint::Mission;
use ec_data::{
    BaseDat, BaseRecord, ConquestDat, CoreGameData, FleetDat, FleetRecord, IpbmDat, PlanetDat,
    PlayerDat, PlayerRecord, SetupDat, CONQUEST_DAT_SIZE, FLEET_RECORD_SIZE, PLANETS_DAT_SIZE,
    SETUP_DAT_SIZE,
};

fn game() -> CoreGameData {
    CoreGameData {
        player: PlayerDat { records: Vec::new() },
        planets: PlanetDat::parse(&vec![0u8; PLANETS_DAT_SIZE]).expect("planets"),
        fleets: FleetDat { records: Vec::new() },
        bases: BaseDat { records: Vec::new() },
        ipbm: IpbmDat { records: Vec::new() },
        setup: SetupDat::parse(&vec![0u8; SETUP_DAT_SIZE]).expect("setup"),
        conquest: ConquestDat::parse(&vec![0u8; CONQUEST_DAT_SIZE]).expect("conquest"),
    }
}

fn state(counts: [u32; 7], fresh: [u32; 7]) -> FleetCombatState {
    FleetCombatState { counts, fresh }
}

fn fleet(dd: u16, ca: u16, bb: u16, sc: u8, tt: u16, et: u16) -> FleetRecord {
    let mut raw = [0u8; FLEET_RECORD_SIZE];
    raw[0x24] = sc;
    raw[0x26..0x28].copy_from_slice(&bb.to_le_bytes());
    raw[0x28..0x2A].copy_from_slice(&ca.to_le_bytes());
    raw[0x2A..0x2C].copy_from_slice(&dd.to_le_bytes());
    raw[0x2C..0x2E].copy_from_slice(&tt.to_le_bytes());
    raw[0x30..0x32].copy_from_slice(&et.to_le_bytes());
    FleetRecord { raw }
}

fn task_force(empire: u8, counts: [u32; 7], role: BattleRole) -> TaskForce {
    TaskForce {
        empire,
        fleet_indices: Vec::new(),
        coords: [1, 1],
        state: state(counts, [0; 7]),
        role,
        withdrew_under_roe: false,
        engaged_in_battle: false,
        free_hold_used: false,
    }
}

#[test]
fn attack_strength_and_mixing() {
    let s = state([2, 1, 1, 1, 5, 5, 5], [0; 7]);
    assert_eq!(s.total_combat_as(), 2 + 3 + 9 + 10);
    assert!(s.is_mixed());
    assert!(!state([4, 0, 0, 2, 0, 0, 0], [0; 7]).is_mixed());
    assert!(state([0, 0, 0, 0, 0, 0, 1], [0; 7]).has_units());
    assert!(!state([0; 7], [3; 7]).has_units());
}

#[test]
fn fresh_steps_round_up_with_a_floor_of_one() {
    assert_eq!(fresh_steps_for_ds(0), 1);
    assert_eq!(fresh_steps_for_ds(1), 1);
    assert_eq!(fresh_steps_for_ds(6), 1);
    assert_eq!(fresh_steps_for_ds(7), 2);
    assert_eq!(fresh_steps_for_ds(12), 2);
    assert_eq!(fresh_steps_for_ds(13), 3);
    assert_eq!(fleet_combat_priority(), [0, 1, 2, 3, 4, 5, 6]);
}

#[test]
fn rules_of_engagement_thresholds() {
    assert!(!rule_threshold_satisfied(0, 100, 0));
    assert!(rule_threshold_satisfied(1, 0, 0));
    assert!(!rule_threshold_satisfied(1, 100, 1));
    assert!(rule_threshold_satisfied(2, 40, 10));
    assert!(!rule_threshold_satisfied(2, 39, 10));
    assert!(rule_threshold_satisfied(5, 15, 10));
    assert!(!rule_threshold_satisfied(5, 14, 10));
    assert!(rule_threshold_satisfied(6, 10, 10));
    assert!(rule_threshold_satisfied(9, 4, 12));
    assert!(!rule_threshold_satisfied(9, 3, 10));
    assert!(rule_threshold_satisfied(10, 0, 1000));
    assert!(!rule_threshold_satisfied(2, u32::MAX - 1, u32::MAX));
    assert!(rule_threshold_satisfied(2, u32::MAX, u32::MAX));
}

#[test]
fn space_combat_efficiency() {
    assert_eq!(space_cer_percent(10, 0, false, false), 150);
    assert_eq!(space_cer_percent(4, 10, false, false), 50);
    assert_eq!(space_cer_percent(6, 10, false, false), 75);
    assert_eq!(space_cer_percent(12, 10, false, false), 100);
    assert_eq!(space_cer_percent(20, 10, false, false), 125);
    assert_eq!(space_cer_percent(30, 10, false, false), 150);
    assert_eq!(space_cer_percent(6, 10, true, true), 125);
    assert_eq!(space_cer_percent(30, 10, true, true), 150);
}

#[test]
fn ground_combat_efficiency() {
    assert_eq!(ground_cer_percent(5, 0, 0), 200);
    assert_eq!(ground_cer_percent(4, 10, 0), 50);
    assert_eq!(ground_cer_percent(6, 10, 0), 100);
    assert_eq!(ground_cer_percent(15, 10, 0), 150);
    assert_eq!(ground_cer_percent(20, 10, 0), 200);
    assert_eq!(ground_cer_percent(6, 10, 1), 200);
    assert_eq!(ground_cer_percent(6, 10, -3), 50);
    assert_eq!(pursuit_cer_percent(), 50);
}

#[test]
fn hits_round_up() {
    assert_eq!(hits_from(10, 150), 15);
    assert_eq!(hits_from(3, 50), 2);
    assert_eq!(hits_from(0, 150), 0);
    assert_eq!(hits_from(u32::MAX, 2), 42949673);
}

#[test]
fn hits_wear_fresh_steps_before_hulls() {
    let mut s = state([2, 1, 0, 0, 0, 0, 0], [2, 1, 0, 0, 0, 0, 0]);
    apply_hits_to_fleet(&mut s, 2);
    assert_eq!(s.fresh, [0, 1, 0, 0, 0, 0, 0]);
    assert_eq!(s.counts, [2, 1, 0, 0, 0, 0, 0]);
    apply_hits_to_fleet(&mut s, 3);
    assert_eq!(s.fresh, [0; 7]);
    assert_eq!(s.counts, [0, 1, 0, 0, 0, 0, 0]);
    apply_hits_to_fleet(&mut s, 100);
    assert_eq!(s.counts, [0; 7]);
}

#[test]
fn combat_state_from_fleet_records() {
    let mut data = game();
    data.fleets.records.push(fleet(2, 1, 3, 1, 4, 1));
    data.fleets.records.push(fleet(1, 0, 0, 0, 0, 2));
    data.fleets.records.push(fleet(9, 9, 9, 9, 9, 9));
    let s = fleet_state_from_records(&data, &[0, 1], 2);
    assert_eq!(s.counts, [3, 1, 3, 2, 1, 4, 3]);
    assert_eq!(s.fresh, [3, 1, 6, 4, 1, 4, 3]);
}

#[test]
fn losses_counts_and_sizes() {
    let before = state([5, 4, 3, 0, 2, 2, 1], [0; 7]);
    let after = state([1, 4, 0, 0, 3, 2, 0], [0; 7]);
    let losses = ship_losses_from_states(&before, &after);
    assert_eq!(
        (losses.destroyers, losses.cruisers, losses.battleships, losses.scouts, losses.transports, losses.etacs),
        (4, 0, 3, 0, 0, 1)
    );
    let counts = ship_counts_from_state(&after);
    assert_eq!((counts.destroyers, counts.scouts, counts.transports), (1, 3, 2));
    assert_eq!(vessel_size_summary(&before), (10, 4, 3));
}

#[test]
fn bombardment_and_blitz_cover() {
    let s = state([3, 2, 1, 0, 0, 0, 0], [0; 7]);
    assert_eq!(bombard_attack_as(&s), 1 + 6 + 13);
    assert_eq!(blitz_cover_hits(&s), 10);
    assert_eq!(blitz_cover_hits(&state([1, 0, 0, 0, 0, 0, 0], [0; 7])), 1);
    assert_eq!(blitz_cover_hits(&state([0, 0, 0, 5, 5, 5, 5], [0; 7])), 0);
}

#[test]
fn nearest_owned_world_prefers_the_first_on_ties() {
    let mut data = game();
    let set = |data: &mut CoreGameData, i: usize, x: u8, y: u8, owner: u8| {
        data.planets.records[i].raw[0] = x;
        data.planets.records[i].raw[1] = y;
        data.planets.records[i].raw[0x5D] = owner;
    };
    set(&mut data, 0, 10, 10, 2);
    set(&mut data, 1, 5, 5, 1);
    set(&mut data, 2, 7, 3, 1);
    set(&mut data, 3, 3, 7, 1);
    assert_eq!(nearest_owned_planet(&data, 1, [5, 4]), Some([5, 5]));
    assert_eq!(nearest_owned_planet(&data, 1, [5, 5]), Some([5, 5]));
    assert_eq!(nearest_owned_planet(&data, 1, [5, 7]), Some([5, 5]));
    assert_eq!(nearest_owned_planet(&data, 3, [5, 7]), None);
    assert_eq!(planet_idx_at_coords(&data, [7, 3]), Some(2));
    assert_eq!(planet_idx_at_coords(&data, [8, 3]), None);
}

#[test]
fn starbases_counted_and_destroyed_in_order() {
    let mut data = game();
    for id in 1..=3u8 {
        let mut base = BaseRecord::new_zeroed();
        base.set_owner_empire_raw(2);
        base.set_coords_raw([4, 4]);
        base.set_active_flag_raw(1);
        base.set_base_id_raw(id);
        data.bases.records.push(base);
    }
    data.bases.records[1].set_active_flag_raw(0);
    let mut p1 = PlayerRecord::new_zeroed();
    p1.set_starbase_count_raw(9);
    let mut p2 = PlayerRecord::new_zeroed();
    p2.set_starbase_count_raw(2);
    data.player.records = vec![p1, p2];
    assert_eq!(starbase_count_at(&data, [4, 4], 2), 2);
    assert_eq!(starbase_count_at(&data, [4, 4], 1), 0);
    let ids = remove_destroyed_starbases(&mut data, [4, 4], 2, 1);
    assert_eq!(ids, vec![1]);
    assert_eq!(data.bases.records[0].raw, [0u8; 35]);
    assert_eq!(data.bases.records[2].base_id_raw(), 3);
    assert_eq!(data.player.records[1].starbase_count_raw(), 1);
    assert_eq!(data.player.records[0].starbase_count_raw(), 9);
    let ids = remove_destroyed_starbases(&mut data, [4, 4], 2, 5);
    assert_eq!(ids, vec![3]);
    assert_eq!(data.player.records[1].starbase_count_raw(), 0);
}

#[test]
fn stardock_absorbs_bombardment_slot_by_slot() {
    let mut data = game();
    let planet = &mut data.planets.records[0];
    planet.set_stardock_kind_raw(0, 1);
    planet.set_stardock_count_raw(0, 2);
    planet.set_stardock_kind_raw(2, 3);
    planet.set_stardock_count_raw(2, 5);
    let left = reduce_stardock(planet, 4);
    assert_eq!(left, 0);
    assert_eq!((planet.stardock_kind_raw(0), planet.stardock_count_raw(0)), (0, 0));
    assert_eq!((planet.stardock_kind_raw(2), planet.stardock_count_raw(2)), (3, 3));
    assert_eq!(reduce_stardock(planet, 10), 7);
    assert_eq!(planet.stardock_kind_raw(2), 0);
}

#[test]
fn target_priority_prefers_defenders_then_strength() {
    let weak_defender = task_force(3, [1, 0, 0, 0, 0, 0, 0], BattleRole::GuardingDefender);
    let strong_attacker = task_force(4, [0, 0, 5, 0, 0, 0, 0], BattleRole::Attacker);
    let other_attacker = task_force(2, [0, 0, 5, 0, 0, 0, 0], BattleRole::Attacker);
    let own = task_force(1, [0, 0, 9, 0, 0, 0, 0], BattleRole::IncumbentDefender);
    let dead = task_force(5, [0; 7], BattleRole::IncumbentDefender);
    let candidates = [
        (&strong_attacker, HostilityReason::DeclaredEnemy),
        (&own, HostilityReason::DeclaredEnemy),
        (&weak_defender, HostilityReason::PatrolContact),
        (&dead, HostilityReason::DeclaredEnemy),
    ];
    assert_eq!(
        hostile_target_priority(1, BattleRole::Attacker, &candidates, None),
        Some((3, HostilityReason::PatrolContact))
    );
    let attackers = [
        (&strong_attacker, HostilityReason::DeclaredEnemy),
        (&other_attacker, HostilityReason::DefendedSystemEntry),
    ];
    assert_eq!(
        hostile_target_priority(1, BattleRole::IncumbentDefender, &attackers, Some(1)),
        Some((2, HostilityReason::DefendedSystemEntry))
    );
    assert_eq!(hostile_target_priority(1, BattleRole::Attacker, &[(&own, HostilityReason::DeclaredEnemy)], None), None);
    assert!(tf_has_any_units(&weak_defender));
    assert!(!tf_has_any_units(&dead));
}

#[test]
fn dominant_empire_needs_a_sole_survivor() {
    let a = task_force(1, [1, 0, 0, 0, 0, 0, 0], BattleRole::Attacker);
    let a2 = task_force(1, [0, 0, 0, 0, 1, 0, 0], BattleRole::Attacker);
    let b = task_force(2, [0; 7], BattleRole::IncumbentDefender);
    let c = task_force(3, [0, 1, 0, 0, 0, 0, 0], BattleRole::IncumbentDefender);
    assert_eq!(dominant_empire_after_battle(&[a.clone(), b.clone(), a2.clone()], None), Some(1));
    assert_eq!(dominant_empire_after_battle(&[a.clone(), c.clone()], None), None);
    assert_eq!(dominant_empire_after_battle(&[b.clone()], None), None);
    assert_eq!(dominant_empire_after_battle(&[a, c], Some(3)), Some(3));
}

#[test]
fn small_rules() {
    assert!(hostility_requires_forced_engagement(HostilityReason::DefendedSystemEntry));
    assert!(!hostility_requires_forced_engagement(HostilityReason::PatrolContact));
    assert_eq!(mission_priority(MissionClass::Blitz), 0);
    assert_eq!(mission_priority(MissionClass::Other), 3);
}

fn fleet_with_id(id: u8, dd: u16) -> FleetRecord {
    let mut f = fleet(dd, 0, 0, 0, 0, 0);
    f.raw[0x05] = id;
    f
}

#[test]
fn reporting_fleet_choice() {
    let mut data = game();
    data.fleets.records.push(fleet_with_id(7, 1));
    data.fleets.records.push(fleet_with_id(3, 0));
    data.fleets.records.push(fleet_with_id(0, 4));
    data.fleets.records.push(fleet_with_id(3, 2));
    assert_eq!(preferred_reporting_fleet_index(&data, &[0, 1, 3, 9]), Some(1));
    assert_eq!(preferred_reporting_fleet_index(&data, &[3, 1]), Some(3));
    assert_eq!(preferred_reporting_fleet_id(&data, &[0, 3]), Some(3));
    assert_eq!(preferred_reporting_fleet_id(&data, &[2, 8]), None);
    assert_eq!(single_named_fleet_id(&data, &[0, 1, 2]), Some(7));
    assert_eq!(single_named_fleet_id(&data, &[0, 3]), None);
    assert_eq!(single_named_fleet_id(&data, &[1, 2]), None);
}

#[test]
fn battle_report_perspective() {
    assert_eq!(
        report_perspective_for_mission(Some(Mission::GuardStarbase), BattleRole::Attacker),
        FleetBattlePerspective::Intercepted
    );
    assert_eq!(
        report_perspective_for_mission(Some(Mission::PatrolSector), BattleRole::GuardingDefender),
        FleetBattlePerspective::Attacked
    );
    assert_eq!(
        report_perspective_for_mission(Some(Mission::Salvage), BattleRole::Attacker),
        FleetBattlePerspective::Intercepted
    );
    assert_eq!(
        report_perspective_for_mission(None, BattleRole::GuardingDefender),
        FleetBattlePerspective::Intercepted
    );
    assert_eq!(
        report_perspective_for_mission(None, BattleRole::IncumbentDefender),
        FleetBattlePerspective::Attacked
    );
}
