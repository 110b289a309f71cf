use ec_data::maint::retarget::{
    nearest_owned_planet_target_from_list, refresh_guard_starbase_targets, refresh_seek_home_targets,
};
use ec_data::maint::{MissionRetargetEvent, Mission};
use ec_data::{
    BaseDat, BaseRecord, ConquestDat, CoreGameData, FleetDat, FleetRecord, IpbmDat, PlanetDat, PlayerDat,
    SetupDat, CONQUEST_DAT_SIZE, FLEET_RECORD_SIZE, PLANETS_DAT_SIZE, SETUP_DAT_SIZE,
};

#[test]
fn nearest_listed_world_of_the_empire() {
    let worlds = [(2, [1, 1]), (1, [9, 9]), (1, [4, 6]), (1, [6, 4]), (3, [5, 5])];
    assert_eq!(nearest_owned_planet_target_from_list(&worlds, 1, [5, 5]), Some([4, 6]));
    assert_eq!(nearest_owned_planet_target_from_list(&worlds, 1, [9, 8]), Some([9, 9]));
    assert_eq!(nearest_owned_planet_target_from_list(&worlds, 3, [0, 0]), Some([5, 5]));
    assert_eq!(nearest_owned_planet_target_from_list(&worlds, 4, [0, 0]), None);
}

/// A fleet of `owner` at (4, 5) on `order`, aimed at (9, 9), moving at speed 3.
fn fleet(owner: u8, order: u8) -> FleetRecord {
    let mut raw = [0u8; FLEET_RECORD_SIZE];
    raw[0x02] = owner;
    raw[0x0A] = 3;
    raw[0x0B] = 4;
    raw[0x0C] = 5;
    raw[0x1F] = order;
    raw[0x20] = 9;
    raw[0x21] = 9;
    FleetRecord { raw }
}

#[test]
fn homebound_fleets_turn_to_the_nearest_world_or_hold() {
    let mut planets = PlanetDat::parse(&vec![0u8; PLANETS_DAT_SIZE]).expect("planets");
    for (i, (x, y, owner)) in [(1u8, 1u8, 1u8), (5, 6, 1), (9, 9, 2)].into_iter().enumerate() {
        planets.records[i].raw[0] = x;
        planets.records[i].raw[1] = y;
        planets.records[i].raw[0x5D] = owner;
    }
    let mut data = CoreGameData {
        player: PlayerDat { records: Vec::new() },
        planets,
        fleets: FleetDat { records: vec![fleet(1, 2), fleet(1, 1), fleet(3, 2), fleet(2, 2)] },
        bases: BaseDat { records: Vec::new() },
        ipbm: IpbmDat { records: Vec::new() },
        setup: SetupDat::parse(&vec![0u8; SETUP_DAT_SIZE]).expect("setup"),
        conquest: ConquestDat::parse(&vec![0u8; CONQUEST_DAT_SIZE]).expect("conquest"),
    };
    let before_other = data.fleets.records[1].raw;
    let events = refresh_seek_home_targets(&mut data);
    assert_eq!(
        events,
        vec![
            MissionRetargetEvent::Retargeted {
                fleet_idx: 0,
                owner_empire_raw: 1,
                mission: Mission::SeekHome,
                previous_target_coords: [9, 9],
                new_target_coords: [5, 6],
            },
            MissionRetargetEvent::Abandoned {
                fleet_idx: 2,
                owner_empire_raw: 3,
                mission: Mission::SeekHome,
                previous_target_coords: [9, 9],
                coords: [4, 5],
            },
        ]
    );
    let f = &data.fleets.records;
    assert_eq!([f[0].raw[0x20], f[0].raw[0x21]], [5, 6]);
    assert_eq!(f[1].raw, before_other);
    assert_eq!((f[2].raw[0x1F], f[2].raw[0x0A], f[2].raw[0x20], f[2].raw[0x21]), (0, 0, 4, 5));
    // Already bound for its only world: nothing to report, nothing changed.
    assert_eq!([f[3].raw[0x20], f[3].raw[0x21]], [9, 9]);
    assert_eq!(f[3].raw[0x0A], 3);
}

fn base(owner: u8, id: u8, coords: [u8; 2]) -> BaseRecord {
    let mut b = BaseRecord::new_zeroed();
    b.set_owner_empire_raw(owner);
    b.set_base_id_raw(id);
    b.set_coords_raw(coords);
    b
}

fn guard(owner: u8, base_id: u8, enabled: u8) -> FleetRecord {
    let mut f = fleet(owner, 4);
    f.raw[0x22] = base_id;
    f.raw[0x23] = enabled;
    f
}

#[test]
fn guards_follow_their_starbase_or_hold() {
    let mut data = CoreGameData {
        player: PlayerDat { records: Vec::new() },
        planets: PlanetDat::parse(&vec![0u8; PLANETS_DAT_SIZE]).expect("planets"),
        fleets: FleetDat {
            records: vec![guard(1, 2, 1), guard(1, 3, 1), guard(1, 2, 0), guard(2, 1, 1), fleet(1, 1)],
        },
        bases: BaseDat {
            records: vec![base(1, 2, [3, 3]), base(1, 2, [6, 7]), base(2, 1, [9, 9]), base(0, 3, [1, 1])],
        },
        ipbm: IpbmDat { records: Vec::new() },
        setup: SetupDat::parse(&vec![0u8; SETUP_DAT_SIZE]).expect("setup"),
        conquest: ConquestDat::parse(&vec![0u8; CONQUEST_DAT_SIZE]).expect("conquest"),
    };
    let untouched = data.fleets.records[4].raw;
    let events = refresh_guard_starbase_targets(&mut data);
    let abandoned = |fleet_idx| MissionRetargetEvent::Abandoned {
        fleet_idx,
        owner_empire_raw: 1,
        mission: Mission::GuardStarbase,
        previous_target_coords: [9, 9],
        coords: [4, 5],
    };
    assert_eq!(
        events,
        vec![
            MissionRetargetEvent::Retargeted {
                fleet_idx: 0,
                owner_empire_raw: 1,
                mission: Mission::GuardStarbase,
                previous_target_coords: [9, 9],
                new_target_coords: [6, 7],
            },
            abandoned(1),
            abandoned(2),
        ]
    );
    let f = &data.fleets.records;
    assert_eq!([f[0].raw[0x20], f[0].raw[0x21]], [6, 7]);
    assert_eq!((f[1].raw[0x1F], f[1].raw[0x0A], f[1].raw[0x20], f[1].raw[0x21]), (0, 0, 4, 5));
    assert_eq!([f[3].raw[0x20], f[3].raw[0x21]], [9, 9]);
    assert_eq!(f[4].raw, untouched);
}
