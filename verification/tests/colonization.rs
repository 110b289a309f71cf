use ec_data::maint::colonization::process_colonizations;
use ec_data::maint::movement::ColonizationEvent;
use ec_data::maint::ColonizationResolvedEvent;
use ec_data::{
    BaseDat, ConquestDat, CoreGameData, FleetDat, IpbmDat, PlanetDat, PlayerDat, PlayerRecord,
    SetupDat, CONQUEST_DAT_SIZE, PLANETS_DAT_SIZE, PLAYER_RECORD_SIZE, SETUP_DAT_SIZE,
};

fn player() -> PlayerRecord {
    let mut raw = [0u8; PLAYER_RECORD_SIZE];
    raw[0x50] = 1;
    raw[0x52] = 255;
    PlayerRecord { raw }
}

#[test]
fn arrivals_found_colonies_on_unowned_worlds_only() {
    let mut planets = PlanetDat::parse(&vec![0u8; PLANETS_DAT_SIZE]).expect("planets");
    planets.records[0].raw[0] = 3;
    planets.records[0].raw[1] = 4;
    planets.records[1].raw[0] = 5;
    planets.records[1].raw[1] = 5;
    planets.records[1].raw[0x5D] = 2;
    let owned_before = planets.records[1].raw;
    let mut data = CoreGameData {
        player: PlayerDat { records: vec![player(), player()] },
        planets,
        fleets: FleetDat { records: Vec::new() },
        bases: BaseDat { records: Vec::new() },
        ipbm: IpbmDat { records: Vec::new() },
        setup: SetupDat::parse(&vec![0u8; SETUP_DAT_SIZE]).expect("setup"),
        conquest: ConquestDat::parse(&vec![0u8; CONQUEST_DAT_SIZE]).expect("conquest"),
    };
    let arrive = |fleet_idx, coords, owner_empire| ColonizationEvent { fleet_idx, coords, owner_empire };
    let resolved = process_colonizations(
        &mut data,
        &[arrive(0, [3, 4], 1), arrive(1, [3, 4], 2), arrive(2, [5, 5], 1), arrive(3, [9, 9], 1)],
    );
    assert_eq!(
        resolved,
        vec![
            ColonizationResolvedEvent::Succeeded {
                fleet_idx: 0,
                planet_idx: 0,
                colonizer_empire_raw: 1,
                stardate_week: None,
            },
            ColonizationResolvedEvent::BlockedByOwner {
                fleet_idx: 1,
                planet_idx: 0,
                colonizer_empire_raw: 2,
                owner_empire_raw: 1,
                stardate_week: None,
            },
            ColonizationResolvedEvent::BlockedByOwner {
                fleet_idx: 2,
                planet_idx: 1,
                colonizer_empire_raw: 1,
                owner_empire_raw: 2,
                stardate_week: None,
            },
        ]
    );
    let colony = &data.planets.records[0].raw;
    assert_eq!(colony[0x0F], 13);
    assert_eq!(&colony[0x10..0x1D], b"Not Named Yet");
    assert_eq!((colony[0x5C], colony[0x5D], colony[0x58], colony[0x03]), (2, 1, 1, 0x81));
    assert_eq!((data.player.records[0].raw[0x50], data.player.records[0].raw[0x52]), (2, 255));
    assert_eq!(data.player.records[1].raw[0x50], 1);
    assert_eq!(data.planets.records[1].raw, owned_before);
}
