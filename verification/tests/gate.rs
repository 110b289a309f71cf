use ec_data::maint::gate::{
    check_gate_conquest, check_maintenance_schedule, check_maintenance_schedule_on,
    weekday_from_unix_secs, GateResult,
};
use ec_data::{ConquestDat, CONQUEST_DAT_SIZE};

fn conquest_with_days(days: [u8; 7]) -> ConquestDat {
    let mut raw = vec![0u8; CONQUEST_DAT_SIZE];
    raw[3..10].copy_from_slice(&days);
    ConquestDat::parse(&raw).expect("conquest")
}

#[test]
fn gate_allows_enabled_day() {
    let conquest = conquest_with_days([0, 0, 1, 0, 0, 0, 0]);
    assert_eq!(check_maintenance_schedule_on(&conquest, 2), GateResult::Allowed);
}

#[test]
fn gate_names_the_disabled_day() {
    let conquest = conquest_with_days([0, 0, 1, 0, 0, 0, 0]);
    assert_eq!(
        check_maintenance_schedule_on(&conquest, 0),
        GateResult::NotScheduled { day_name: "Sunday" }
    );
    assert_eq!(
        check_maintenance_schedule_on(&conquest, 6),
        GateResult::NotScheduled { day_name: "Saturday" }
    );
}

#[test]
fn gate_with_every_day_enabled_always_allows() {
    let conquest = conquest_with_days([1; 7]);
    assert_eq!(check_maintenance_schedule(&conquest), GateResult::Allowed);
}

#[test]
fn weekday_of_the_epoch_is_thursday() {
    assert_eq!(weekday_from_unix_secs(0), 4);
    assert_eq!(weekday_from_unix_secs(3 * 86400), 0);
    assert_eq!(weekday_from_unix_secs(86399), 4);
}

#[test]
fn check_gate_conquest_refuses_short_input() {
    assert_eq!(
        check_gate_conquest(&[0u8; 10]),
        Err("CONQUEST.DAT too small for gate check")
    );
}

#[test]
fn check_gate_conquest_refuses_long_input_and_reads_exact_size() {
    let mut raw = vec![7u8; CONQUEST_DAT_SIZE + 5];
    assert_eq!(
        check_gate_conquest(&raw),
        Err("CONQUEST.DAT too large for gate check")
    );
    raw.truncate(CONQUEST_DAT_SIZE);
    raw[0] = 1;
    let conquest = check_gate_conquest(&raw).expect("conquest");
    assert_eq!(conquest.raw[0], 1);
    assert_eq!(conquest.raw[CONQUEST_DAT_SIZE - 1], 7);
}
