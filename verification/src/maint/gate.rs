//! Schedule gate for the maintenance engine.
//!
//! `CONQUEST.DAT[0x03..0x0A]` holds one enable flag per weekday (Sunday
//! first); maintenance only runs on an enabled day.
use crate::records::conquest::ConquestDat;
use crate::CONQUEST_DAT_SIZE;
use std::time::Duration;
use std::time::SystemTime;
use vstd::prelude::*;

verus! {

#[verifier::external_type_specification]
#[verifier::external_body]
pub struct ExSystemTime(SystemTime);

/// Result of a maintenance schedule gate check.
#[derive(Debug, Clone, PartialEq, Eq)]
pub enum GateResult {
    /// Maintenance is allowed to run today.
    Allowed,
    /// Maintenance is not scheduled for this day.
    NotScheduled { day_name: &'static str },
    /// Another maintenance process holds the token file.
    TokenBusy,
}

/// English name of weekday `day` (0 = Sunday ... 6 = Saturday).
pub open spec fn day_name_text(day: int) -> Seq<char> {
    if day == 0 {
        "Sunday"@
    } else if day == 1 {
        "Monday"@
    } else if day == 2 {
        "Tuesday"@
    } else if day == 3 {
        "Wednesday"@
    } else if day == 4 {
        "Thursday"@
    } else if day == 5 {
        "Friday"@
    } else {
        "Saturday"@
    }
}

/// Gate outcome for weekday `day` under the schedule in `raw`: `None` when
/// maintenance may run, else the name of the day.
pub open spec fn gate_for_day(raw: Seq<u8>, day: int) -> Option<Seq<char>> {
    if raw[3 + day] != 0 {
        None
    } else {
        Some(day_name_text(day))
    }
}

/// Whether `result` fits weekday `day` under the schedule in `raw`: `Allowed`
/// on an enabled day, else `NotScheduled` naming the day.
pub open spec fn gate_result_for_day(result: GateResult, raw: Seq<u8>, day: int) -> bool {
    match gate_for_day(raw, day) {
        None => result == GateResult::Allowed,
        Some(name) => result matches GateResult::NotScheduled { day_name } && day_name@ == name,
    }
}

/// Weekday (0 = Sunday) of the day holding `secs` seconds after the Unix
/// epoch, which fell on a Thursday.
pub open spec fn weekday_of_unix_secs(secs: int) -> int {
    (secs / 86400 + 4) % 7
}

/// The Unix epoch's day (any second of it) was a Thursday, and each further
/// day of 86400 seconds moves the weekday on by one, Saturday (6) wrapping
/// to Sunday (0).
pub proof fn lemma_weekday_calendar(secs: int)
    requires
        secs >= 0,
    ensures
        0 <= weekday_of_unix_secs(secs) < 7,
        secs < 86400 ==> weekday_of_unix_secs(secs) == 4,
        weekday_of_unix_secs(secs + 86400) == (weekday_of_unix_secs(secs) + 1) % 7,
        weekday_of_unix_secs(secs + 7 * 86400) == weekday_of_unix_secs(secs),
{
    assert((secs + 86400) / 86400 == secs / 86400 + 1) by (nonlinear_arith)
        requires
            secs >= 0,
    ;
    assert((secs + 7 * 86400) / 86400 == secs / 86400 + 7) by (nonlinear_arith)
        requires
            secs >= 0,
    ;
}

fn day_name(day: u8) -> (r: &'static str)
    requires
        day < 7,
    ensures
        r@ == day_name_text(day as int),
{
    if day == 0 {
        "Sunday"
    } else if day == 1 {
        "Monday"
    } else if day == 2 {
        "Tuesday"
    } else if day == 3 {
        "Wednesday"
    } else if day == 4 {
        "Thursday"
    } else if day == 5 {
        "Friday"
    } else {
        "Saturday"
    }
}

/// `std::time::SystemTime::now`: the clock's current reading. Nothing is
/// claimed of it.
#[verifier::external_body]
fn system_time_now() -> SystemTime {
    SystemTime::now()
}

/// `SystemTime::duration_since(UNIX_EPOCH)`: the time elapsed since the
/// epoch, `None` for a clock set before it. Nothing is claimed of the value.
#[verifier::external_body]
fn duration_since_unix_epoch(t: &SystemTime) -> Option<Duration> {
    t.duration_since(SystemTime::UNIX_EPOCH).ok()
}

/// `Duration::as_secs`: the whole seconds in `d`. Nothing is claimed of the
/// value.
#[verifier::external_body]
fn duration_whole_secs(d: &Duration) -> u64 {
    d.as_secs()
}

/// Weekday (0 = Sunday ... 6 = Saturday) of `secs` seconds after the Unix epoch.
pub fn weekday_from_unix_secs(secs: u64) -> (r: u8)
    ensures
        r == weekday_of_unix_secs(secs as int),
        r < 7,
{
    ((secs / 86400 + 4) % 7) as u8
}

/// Today's weekday (0 = Sunday) by the system clock; a clock set before the
/// epoch reads as the epoch's own day.
fn today_weekday() -> (r: u8)
    ensures
        r < 7,
{
    let now = system_time_now();
    let secs = match duration_since_unix_epoch(&now) {
        Some(d) => duration_whole_secs(&d),
        None => 0,
    };
    weekday_from_unix_secs(secs)
}

/// Gate check for a given weekday (0 = Sunday ... 6 = Saturday).
pub fn check_maintenance_schedule_on(conquest: &ConquestDat, weekday: u8) -> (r: GateResult)
    requires
        weekday < 7,
    ensures
        gate_result_for_day(r, conquest.raw@, weekday as int),
{
    let schedule = conquest.maintenance_schedule_enabled();
    if schedule[weekday as usize] {
        GateResult::Allowed
    } else {
        GateResult::NotScheduled { day_name: day_name(weekday) }
    }
}

/// Check whether maintenance is scheduled for today according to
/// `CONQUEST.DAT`.
pub fn check_maintenance_schedule(conquest: &ConquestDat) -> (r: GateResult)
    ensures
        exists|day: int| 0 <= day < 7 && gate_result_for_day(r, conquest.raw@, day),
{
    let today = today_weekday();
    check_maintenance_schedule_on(conquest, today)
}

/// Reads `CONQUEST.DAT` for a gate check; data of the wrong size is
/// refused.
pub fn check_gate_conquest(raw: &[u8]) -> (r: Result<ConquestDat, &'static str>)
    ensures
        r is Ok <==> raw@.len() == CONQUEST_DAT_SIZE,
        r matches Ok(c) ==> c.raw@ == raw@,
        r matches Err(msg) ==> msg@ == (if raw@.len() < CONQUEST_DAT_SIZE {
            "CONQUEST.DAT too small for gate check"@
        } else {
            "CONQUEST.DAT too large for gate check"@
        }),
{
    if raw.len() < CONQUEST_DAT_SIZE {
        return Err("CONQUEST.DAT too small for gate check");
    }
    if raw.len() > CONQUEST_DAT_SIZE {
        return Err("CONQUEST.DAT too large for gate check");
    }
    let mut buf = [0u8;CONQUEST_DAT_SIZE];
    let mut i: usize = 0;
    while i < CONQUEST_DAT_SIZE
        invariant
            i <= CONQUEST_DAT_SIZE,
            raw@.len() == CONQUEST_DAT_SIZE,
            buf@.len() == CONQUEST_DAT_SIZE,
            forall|j: int| 0 <= j < i ==> buf@[j] == raw@[j],
        decreases CONQUEST_DAT_SIZE - i,
    {
        buf[i] = raw[i];
        i = i + 1;
    }
    assert(buf@ =~= raw@);
    Ok(ConquestDat { raw: buf })
}

} // verus!
