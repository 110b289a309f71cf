use ec_data::maint::defection::apply_civil_disorder_fleet_defections;
use ec_data::maint::removal::apply_fleet_removal_remap;
use ec_data::maint::{CivilDisorderEvent, FleetDefectionEvent};
use ec_data::{
    BaseDat, ConquestDat, CoreGameData, FleetDat, FleetRecord, IpbmDat, PlanetDat, PlayerDat,
    PlayerRecord, SetupDat, CONQUEST_DAT_SIZE, FLEET_RECORD_SIZE, PLANETS_DAT_SIZE,
    PLAYER_RECORD_SIZE, SETUP_DAT_SIZE,
};

/// Fleet `id` of `owner`, linked to `next` and `prev`, with `dd` destroyers.
fn fleet(owner: u8, id: u16, next: u16, prev: u8, dd: u16) -> FleetRecord {
    let mut raw = [0u8; FLEET_RECORD_SIZE];
    raw[0x00] = 7;
    raw[0x02] = owner;
    raw[0x03..0x05].copy_from_slice(&next.to_le_bytes());
    raw[0x05..0x07].copy_from_slice(&id.to_le_bytes());
    raw[0x07] = prev;
    raw[0x2A..0x2C].copy_from_slice(&dd.to_le_bytes());
    FleetRecord { raw }
}

fn player(mode: u8, first: u8, last: u8) -> PlayerRecord {
    let mut raw = [0u8; PLAYER_RECORD_SIZE];
    raw[0x00] = mode;
    raw[0x40] = first;
    raw[0x42] = last;
    PlayerRecord { raw }
}

fn game(players: Vec<PlayerRecord>, fleets: Vec<FleetRecord>) -> CoreGameData {
    CoreGameData {
        player: PlayerDat { records: players },
        planets: PlanetDat::parse(&vec![0u8; PLANETS_DAT_SIZE]).expect("planets"),
        fleets: FleetDat { records: fleets },
        bases: BaseDat { records: Vec::new() },
        ipbm: IpbmDat { records: Vec::new() },
        setup: SetupDat::parse(&vec![0u8; SETUP_DAT_SIZE]).expect("setup"),
        conquest: ConquestDat::parse(&vec![0u8; CONQUEST_DAT_SIZE]).expect("conquest"),
    }
}

fn links(f: &FleetRecord) -> (u16, u16, u8) {
    (f.fleet_id_word_raw(), f.next_fleet_link_word_raw(), f.previous_fleet_id())
}

#[test]
fn removal_closes_ranks_and_renumbers_fleet_ids() {
    let mut data = game(
        vec![player(0, 1, 4), player(0, 2, 2), player(0, 3, 2)],
        vec![fleet(1, 1, 2, 0, 1), fleet(2, 2, 3, 1, 1), fleet(3, 3, 4, 2, 1), fleet(3, 4, 0, 3, 1)],
    );
    apply_fleet_removal_remap(&mut data, &[false, true, false, false]);
    let f = &data.fleets.records;
    assert_eq!(f.len(), 3);
    assert_eq!(links(&f[0]), (1, 0, 0));
    assert_eq!(links(&f[1]), (2, 3, 0));
    assert_eq!(links(&f[2]), (3, 0, 2));
    assert!(f.iter().all(|r| r.raw[0] == 7));
    let p = &data.player.records;
    assert_eq!((p[0].raw[0x40], p[0].raw[0x42]), (1, 3));
    assert_eq!((p[1].raw[0x40], p[1].raw[0x42]), (0, 0));
    // Its last id pointed at the removed fleet: the highest surviving id of
    // its own fleets takes its place.
    assert_eq!((p[2].raw[0x40], p[2].raw[0x42]), (2, 3));
}

#[test]
fn removal_finds_a_new_last_fleet_when_the_last_one_goes() {
    let mut data = game(
        vec![player(0, 1, 3)],
        vec![fleet(1, 1, 2, 0, 1), fleet(1, 2, 3, 1, 1), fleet(1, 3, 0, 2, 1)],
    );
    apply_fleet_removal_remap(&mut data, &[false, false, true]);
    assert_eq!(data.fleets.records.len(), 2);
    assert_eq!((data.player.records[0].raw[0x40], data.player.records[0].raw[0x42]), (1, 2));
    assert_eq!(links(&data.fleets.records[1]), (2, 0, 1));
}

#[test]
fn removal_with_marks_of_the_wrong_length_changes_nothing() {
    let mut data = game(vec![player(0, 1, 2)], vec![fleet(1, 1, 2, 0, 1), fleet(1, 2, 0, 1, 1)]);
    let before = data.clone();
    apply_fleet_removal_remap(&mut data, &[true]);
    assert_eq!(data, before);
}

#[test]
fn an_empire_without_worlds_loses_its_highest_numbered_fleet() {
    let mut data = game(
        vec![player(0, 1, 2), player(0, 3, 4), player(1, 5, 5)],
        vec![
            fleet(1, 1, 2, 0, 1),
            fleet(1, 2, 0, 1, 0),
            fleet(2, 3, 4, 0, 1),
            fleet(2, 4, 0, 3, 1),
            fleet(3, 5, 0, 0, 1),
        ],
    );
    // Empire 2 holds a world; empire 3 is computer-run; empire 1 defects the
    // only fleet that still holds ships.
    data.planets.records[0].raw[0x5D] = 2;
    let events = apply_civil_disorder_fleet_defections(&mut data, &[]);
    assert_eq!(
        events,
        vec![FleetDefectionEvent { reporting_empire_raw: 1, fleet_id: 1, stardate_week: None }]
    );
    assert_eq!(data.fleets.records.len(), 4);
    assert_eq!(links(&data.fleets.records[0]), (1, 0, 0));
    assert_eq!(data.player.records[1].raw[0x40], 2);
}

#[test]
fn newly_disordered_empires_keep_their_fleets_this_year() {
    let mut data = game(vec![player(0, 1, 1)], vec![fleet(1, 1, 0, 0, 1)]);
    let before = data.clone();
    let disorder = CivilDisorderEvent {
        reporting_empire_raw: 1,
        prior_label: String::from("Stable"),
        stardate_week: None,
    };
    let events = apply_civil_disorder_fleet_defections(&mut data, &[disorder]);
    assert!(events.is_empty());
    assert_eq!(data, before);
}
