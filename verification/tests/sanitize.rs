use ec_data::maint::sanitize::{
    sanitize_player_record_inputs, InvalidPlayerStateEvent, PlayerDiplomacyValidationError,
};
use InvalidPlayerStateEvent::{DiplomacyInput, PlayerTaxRate};
use PlayerDiplomacyValidationError::{InvalidStoredRelationByte, SelfTarget};
use ec_data::{
    BaseDat, ConquestDat, CoreGameData, FleetDat, IpbmDat, PlanetDat, PlayerDat, PlayerRecord,
    SetupDat, CONQUEST_DAT_SIZE, PLANETS_DAT_SIZE, PLAYER_RECORD_SIZE, SETUP_DAT_SIZE,
};

fn player(tax: u8, relations: [u8; 3]) -> PlayerRecord {
    let mut raw = [0u8; PLAYER_RECORD_SIZE];
    raw[0x51] = tax;
    raw[0x54..0x57].copy_from_slice(&relations);
    PlayerRecord { raw }
}

fn game(players: Vec<PlayerRecord>) -> CoreGameData {
    CoreGameData {
        player: PlayerDat { records: players },
        planets: PlanetDat::parse(&vec![0u8; PLANETS_DAT_SIZE]).expect("planets"),
        fleets: FleetDat { records: Vec::new() },
        bases: BaseDat { records: Vec::new() },
        ipbm: IpbmDat { records: Vec::new() },
        setup: SetupDat::parse(&vec![0u8; SETUP_DAT_SIZE]).expect("setup"),
        conquest: ConquestDat::parse(&vec![0u8; CONQUEST_DAT_SIZE]).expect("conquest"),
    }
}

#[test]
fn tax_rates_and_relation_bytes_are_repaired() {
    let mut data = game(vec![player(120, [1, 1, 5]), player(50, [0, 0, 1]), player(101, [2, 0, 0])]);
    let events = sanitize_player_record_inputs(&mut data);
    assert_eq!(
        events,
        vec![
            PlayerTaxRate { player_idx: 0, owner_empire_raw: 1, tax_rate: 120 },
            DiplomacyInput { player_idx: 0, owner_empire_raw: 1, reason: SelfTarget { empire_raw: 1 } },
            DiplomacyInput {
                player_idx: 0,
                owner_empire_raw: 1,
                reason: InvalidStoredRelationByte { target_empire_raw: 3, raw: 5 },
            },
            PlayerTaxRate { player_idx: 2, owner_empire_raw: 3, tax_rate: 101 },
            DiplomacyInput {
                player_idx: 2,
                owner_empire_raw: 3,
                reason: InvalidStoredRelationByte { target_empire_raw: 1, raw: 2 },
            },
        ]
    );
    let p = &data.player.records;
    assert_eq!((p[0].raw[0x51], &p[0].raw[0x54..0x57]), (100, &[0u8, 1, 0][..]));
    assert_eq!((p[1].raw[0x51], &p[1].raw[0x54..0x57]), (50, &[0u8, 0, 1][..]));
    assert_eq!((p[2].raw[0x51], &p[2].raw[0x54..0x57]), (100, &[0u8, 0, 0][..]));
}

#[test]
fn repaired_records_need_no_second_repair() {
    let mut data = game(vec![player(255, [9, 9, 9]), player(100, [1, 7, 0])]);
    sanitize_player_record_inputs(&mut data);
    let once = data.clone();
    assert!(sanitize_player_record_inputs(&mut data).is_empty());
    assert_eq!(data, once);
}
