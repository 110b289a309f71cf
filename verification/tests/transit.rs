use ec_data::maint::movement::ColonizationEvent;
use ec_data::maint::transit::{fleet_sectors_this_year, process_fleet_movement, process_single_fleet_movement};
use ec_data::maint::{DiplomaticEscalationEvent, Mission, MissionOutcome, SalvageResolvedEvent};
use ec_data::{
    BaseDat, ConquestDat, CoreGameData, FleetDat, FleetRecord, IpbmDat, PlanetDat, PlayerDat,
    SetupDat, CONQUEST_DAT_SIZE, FLEET_RECORD_SIZE, PLANETS_DAT_SIZE, SETUP_DAT_SIZE,
};

fn game(order: u8, speed: u8) -> CoreGameData {
    let mut raw = [0u8; FLEET_RECORD_SIZE];
    raw[0x0A] = speed;
    raw[0x0B] = 16;
    raw[0x0C] = 13;
    raw[0x0D] = 0x80;
    raw[0x19] = 0x81;
    raw[0x1F] = order;
    raw[0x20] = 24;
    raw[0x21] = 13;
    CoreGameData {
        player: PlayerDat { records: Vec::new() },
        planets: PlanetDat::parse(&vec![0u8; PLANETS_DAT_SIZE]).expect("planets"),
        fleets: FleetDat { records: vec![FleetRecord { raw }] },
        bases: BaseDat { records: Vec::new() },
        ipbm: IpbmDat { records: Vec::new() },
        setup: SetupDat::parse(&vec![0u8; SETUP_DAT_SIZE]).expect("setup"),
        conquest: ConquestDat::parse(&vec![0u8; CONQUEST_DAT_SIZE]).expect("conquest"),
    }
}

#[test]
fn speed_three_covers_eight_sectors_in_three_years() {
    let mut data = game(1, 3);
    let mut x = 16u8;
    let mut moves = Vec::new();
    let mut carried = Vec::new();
    for _ in 0..3 {
        let n = fleet_sectors_this_year(&data.fleets.records[0]);
        moves.push(n);
        x += n as u8;
        let arrived = process_single_fleet_movement(&mut data, 0, [x, 13]);
        carried.push((arrived, data.fleets.records[0].raw[0x0F]));
    }
    assert_eq!(moves, vec![2, 3, 3]);
    assert_eq!(carried, vec![(false, 0xFE), (false, 0xFC), (true, 0xFC)]);
    let raw = &data.fleets.records[0].raw;
    assert_eq!((raw[0x0B], raw[0x0C]), (24, 13));
    // A plain move keeps its order and speed on arrival.
    assert_eq!((raw[0x0A], raw[0x1F]), (3, 1));
    assert_eq!(&raw[0x19..0x1F], &[0x80, 0xb9, 0xff, 0xff, 0xff, 0x7f]);
    assert_eq!((raw[0x0D], raw[0x0E], raw[0x10], raw[0x11], raw[0x12]), (0x7f, 0xc0, 0xff, 0xff, 0x7f));
}

#[test]
fn colony_fleets_stop_on_arrival_and_idle_fleets_stay() {
    let mut data = game(12, 9);
    assert_eq!(fleet_sectors_this_year(&data.fleets.records[0]), 8);
    assert!(process_single_fleet_movement(&mut data, 0, [24, 13]));
    let raw = &data.fleets.records[0].raw;
    assert_eq!((raw[0x0A], raw[0x1F], raw[0x0D]), (0, 0, 0x80));

    let mut idle = game(1, 0);
    let before = idle.clone();
    assert!(!process_single_fleet_movement(&mut idle, 0, [20, 13]));
    assert_eq!(idle, before);
}

/// A fleet record for the movement phase.
fn fleet_at(id: u8, owner: u8, order: u8, speed: u8, at: [u8; 2], target: [u8; 2], dd: u16) -> FleetRecord {
    let mut raw = [0u8; FLEET_RECORD_SIZE];
    raw[0x02] = owner;
    raw[0x05] = id;
    raw[0x0A] = speed;
    raw[0x0B] = at[0];
    raw[0x0C] = at[1];
    raw[0x0D] = 0x80;
    raw[0x1F] = order;
    raw[0x20] = target[0];
    raw[0x21] = target[1];
    raw[0x2A..0x2C].copy_from_slice(&dd.to_le_bytes());
    FleetRecord { raw }
}

#[test]
fn a_year_of_movement_colonizes_salvages_and_closes_ranks() {
    let mut data = game(0, 0);
    data.fleets.records = vec![
        fleet_at(1, 1, 12, 9, [3, 4], [4, 4], 0),
        fleet_at(2, 1, 15, 0, [5, 5], [5, 5], 2),
        fleet_at(3, 2, 0, 3, [1, 1], [9, 9], 1),
        fleet_at(4, 1, 6, 9, [7, 7], [8, 8], 1),
    ];
    let worlds = [([4u8, 4u8], 0u8), ([5, 5], 1), ([8, 8], 2)];
    for (k, (c, owner)) in worlds.iter().enumerate() {
        data.planets.records[k].raw[0] = c[0];
        data.planets.records[k].raw[1] = c[1];
        data.planets.records[k].raw[0x5D] = *owner;
    }
    let idle = data.fleets.records[2].raw;
    let events = process_fleet_movement(&mut data, &[[4, 4], [5, 5], [1, 1], [8, 8]]);
    assert_eq!(
        events.colonization_events,
        vec![ColonizationEvent { fleet_idx: 0, coords: [4, 4], owner_empire: 1 }]
    );
    assert_eq!(events.mission_events.len(), 1);
    let bombard = events.mission_events[0];
    assert_eq!((bombard.fleet_idx, bombard.kind, bombard.outcome, bombard.planet_idx), (2, Mission::BombardWorld, MissionOutcome::Arrived, Some(2)));
    assert_eq!(
        events.diplomatic_escalation_events,
        vec![DiplomaticEscalationEvent { left_empire_raw: 1, right_empire_raw: 2, stardate_week: None }]
    );
    assert!(matches!(
        events.salvage_events.as_slice(),
        [SalvageResolvedEvent::Succeeded { fleet_idx: 1, planet_idx: 1, recovered_points: 5, .. }]
    ));
    assert_eq!(data.planets.records[1].stored_goods_raw(), 5);
    let f = &data.fleets.records;
    assert_eq!(f.len(), 3);
    assert_eq!((f[0].raw[0x0A], f[0].raw[0x1F]), (0, 0));
    let stays = |r: &[u8; FLEET_RECORD_SIZE]| (r[0x0A], r[0x0B], r[0x0C], r[0x1F], r[0x20], r[0x21]);
    assert_eq!(stays(&f[1].raw), stays(&idle));
    assert_eq!(f[1].raw[0x05], 2);
    assert_eq!((f[2].raw[0x05], f[2].raw[0x0B], f[2].raw[0x1F], f[2].raw[0x0A]), (3, 8, 6, 9));
}
