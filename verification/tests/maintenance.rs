use ec_data::maint::campaign::{process_conquest_header, update_player_starbase_flag};
use ec_data::maint::economics::planet_has_friendly_starbase;
use ec_data::maint::process_autopilot_ai;
use ec_data::{
    BaseDat, BaseRecord, ConquestDat, CoreGameData, FleetDat, IpbmDat, PlanetDat, PlayerDat,
    PlayerRecord, SetupDat, CONQUEST_DAT_SIZE, PLANETS_DAT_SIZE, SETUP_DAT_SIZE,
};

fn game(players: Vec<PlayerRecord>) -> CoreGameData {
    CoreGameData {
        player: PlayerDat { records: players },
        planets: PlanetDat::parse(&vec![0u8; PLANETS_DAT_SIZE]).expect("planets"),
        fleets: FleetDat { records: Vec::new() },
        bases: BaseDat { records: Vec::new() },
        ipbm: IpbmDat { records: Vec::new() },
        setup: SetupDat::parse(&vec![0u8; SETUP_DAT_SIZE]).expect("setup"),
        conquest: ConquestDat::parse(&vec![0u8; CONQUEST_DAT_SIZE]).expect("conquest"),
    }
}

fn player(mode: u8) -> PlayerRecord {
    let mut p = PlayerRecord::new_zeroed();
    p.raw[0x00] = mode;
    p
}

#[test]
fn autopilot_develops_rogue_homeworlds() {
    let mut data = game(vec![player(0xff), player(0x01)]);
    let world = &mut data.planets.records[0];
    world.raw[0x5D] = 1;
    world.raw[0x03] = 0x87;
    world.raw[0x02] = 100;
    world.raw[0x09] = 0x86;
    world.raw[0x58] = 10;
    world.raw[0x0E] = 9;
    let other = &mut data.planets.records[1];
    other.raw[0x5D] = 1;
    other.raw[0x03] = 0x81;
    other.raw[0x58] = 10;
    let human = &mut data.planets.records[2];
    human.raw[0x5D] = 2;
    human.raw[0x03] = 0x87;
    human.raw[0x58] = 10;
    let before_other = data.planets.records[1].raw;
    let before_human = data.planets.records[2].raw;
    process_autopilot_ai(&mut data);
    assert_eq!(data.planets.records[0].raw[0x09], 0x87);
    assert_eq!(data.planets.records[0].raw[0x58], 27);
    assert_eq!(data.planets.records[0].raw[0x0E], 4);
    assert_eq!(data.planets.records[1].raw, before_other);
    assert_eq!(data.planets.records[2].raw, before_human);
}

#[test]
fn autopilot_runs_for_players_with_autopilot_on_and_caps_armies() {
    let mut human = player(0x01);
    human.raw[0x6D] = 0x01;
    let mut data = game(vec![human]);
    let world = &mut data.planets.records[3];
    world.raw[0x5D] = 1;
    world.raw[0x03] = 0x87;
    world.raw[0x02] = 255;
    world.raw[0x09] = 0x87;
    world.raw[0x58] = 250;
    process_autopilot_ai(&mut data);
    assert_eq!(data.planets.records[3].raw[0x58], 255);
    assert_eq!(data.planets.records[3].raw[0x09], 0x87);
    assert_eq!(data.planets.records[3].raw[0x0E], 4);
}

#[test]
fn friendly_starbase_needs_owner_sector_and_active_flag() {
    let mut data = game(Vec::new());
    let mut base = BaseRecord::new_zeroed();
    base.set_owner_empire_raw(2);
    base.set_coords_raw([4, 5]);
    base.set_active_flag_raw(1);
    data.bases.records.push(base);
    assert!(planet_has_friendly_starbase(&data, 2, [4, 5]));
    assert!(!planet_has_friendly_starbase(&data, 1, [4, 5]));
    assert!(!planet_has_friendly_starbase(&data, 2, [5, 4]));
    data.bases.records[0].set_active_flag_raw(0);
    assert!(!planet_has_friendly_starbase(&data, 2, [4, 5]));
}

#[test]
fn conquest_header_on_a_blank_header() {
    let mut data = game(Vec::new());
    process_conquest_header(&mut data, true);
    let raw = &data.conquest.raw;
    assert_eq!((raw[0x0c], raw[0x0d]), (100, 0));
    assert_eq!(raw[0x3d], 1);
    assert_eq!((raw[0x12], raw[0x13]), (0xff, 0xff));
    assert_eq!((raw[0x1a], raw[0x1b]), (0x74, 0x33));
    assert_eq!(raw[0x44], 0xc2);
    assert_eq!((raw[0x47], raw[0x48]), (0x08, 0x6f));
    assert_eq!((raw[0x4a], raw[0x4b]), (0x01, 0x6f));
    assert_eq!((raw[0x52], raw[0x53]), (0x6a, 0x8d));
    assert_eq!(raw[0x54], 0x35);
    assert_eq!(raw[0x20], 0);
}

#[test]
fn conquest_header_writes_inactive_productions() {
    let mut rogue = player(0xff);
    rogue.raw[0x52] = 0x64;
    let mut idle = player(0x00);
    idle.raw[0x52] = 7;
    let mut active = player(0x01);
    active.raw[0x52] = 99;
    let mut data = game(vec![rogue, active, idle]);
    process_conquest_header(&mut data, true);
    let raw = &data.conquest.raw;
    assert_eq!(&raw[0x0c..0x12], &[0x64, 0, 7, 0, 0, 0]);
    assert_eq!(raw[0x3d], 1);
}

#[test]
fn conquest_header_converts_initial_values() {
    let mut data = game(Vec::new());
    let raw = &mut data.conquest.raw;
    raw[0x0c] = 0x64;
    raw[0x0e] = 0x64;
    raw[0x14] = 0x64;
    raw[0x16] = 0x63;
    raw[0x20] = 0x64;
    raw[0x22] = 0x64;
    raw[0x23] = 0x01;
    raw[0x36] = 0x64;
    raw[0x40] = 0x01;
    raw[0x41] = 0x01;
    raw[0x43] = 0x01;
    raw[0x44] = 0x05;
    process_conquest_header(&mut data, false);
    let raw = &data.conquest.raw;
    assert_eq!((raw[0x0c], raw[0x0e]), (0x64, 0x64));
    assert_eq!(raw[0x14], 0);
    assert_eq!(raw[0x16], 0x63);
    assert_eq!((raw[0x20], raw[0x21]), (0x75, 0x03));
    assert_eq!((raw[0x22], raw[0x23]), (0x64, 0x01));
    assert_eq!((raw[0x36], raw[0x37]), (0x3b, 0x86));
    assert_eq!((raw[0x40], raw[0x41]), (0xff, 0x00));
    assert_eq!(raw[0x43], 0);
    assert_eq!(raw[0x44], 0x05);
    assert_eq!(raw[0x3d], 0);
}

#[test]
fn conquest_header_accumulation_saturates() {
    let mut data = game(Vec::new());
    data.conquest.raw[0x0c] = 0xf0;
    data.conquest.raw[0x0d] = 0xff;
    data.conquest.raw[0x0e] = 1;
    data.conquest.raw[0x3d] = 0xff;
    process_conquest_header(&mut data, true);
    assert_eq!((data.conquest.raw[0x0c], data.conquest.raw[0x0d]), (0xff, 0xff));
    assert_eq!(data.conquest.raw[0x3d], 0xff);
}

#[test]
fn starbase_flag_follows_starbase_count() {
    let mut with_bases = player(1);
    with_bases.raw[0x44] = 0;
    with_bases.raw[0x45] = 1;
    let mut without = player(1);
    without.raw[0x46] = 1;
    let mut data = game(vec![with_bases, without]);
    update_player_starbase_flag(&mut data);
    assert_eq!(data.player.records[0].raw[0x46], 1);
    assert_eq!(data.player.records[1].raw[0x46], 0);
}

#[test]
fn conquest_header_upkeep_twice_changes_nothing_more() {
    let mut rogue = player(0xff);
    rogue.raw[0x52] = 0x64;
    let mut data = game(vec![rogue, player(0x00)]);
    data.conquest.raw[0x20] = 0x64;
    data.conquest.raw[0x14] = 0x64;
    data.conquest.raw[0x4a] = 0x01;
    process_conquest_header(&mut data, false);
    let once = data.conquest.raw;
    process_conquest_header(&mut data, false);
    assert_eq!(data.conquest.raw, once);
}
