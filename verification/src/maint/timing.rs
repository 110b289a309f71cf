//! Week-of-year stamps for maintenance events and the `Stardate` lines.
//!
//! Each maintenance year runs on a 1..=52 week timeline. An event's week is
//! a base week (when the mission nominally happens) shifted by the offset
//! of its timing code, clamped to the year.
use crate::maint::events::Mission;
use crate::text::{decimal, push_char, push_decimal, push_str};
use vstd::prelude::*;
use vstd::string::StrSliceExecFns;
use vstd::string::StringSliceAdditionalSpecFns;

verus! {

/// Timing codes of the mission and event families.
#[derive(Debug, Clone, Copy, PartialEq, Eq, Structural)]
pub enum TimingCode {
    /// Fleet combat / sensor contact family: +2 weeks.
    FleetCombat,
    /// Reserved slot: +7 weeks.
    Reserved2,
    /// Scout / view-world / IPBM family: +21 weeks.
    ScoutView,
    /// Standing mission family (orbit, guard, patrol, rendezvous): +0 weeks.
    Standing4,
    Standing5,
    Standing6,
    /// IPBM summary family: +0 weeks.
    IpbmSummary7,
    /// High-offset family: +30 weeks.
    HighOffset8,
}

/// The week offset of each timing code.
pub open spec fn code_offset(code: TimingCode) -> u8 {
    match code {
        TimingCode::FleetCombat => 2,
        TimingCode::Reserved2 => 7,
        TimingCode::ScoutView => 21,
        TimingCode::Standing4 | TimingCode::Standing5 | TimingCode::Standing6
        | TimingCode::IpbmSummary7 => 0,
        TimingCode::HighOffset8 => 30,
    }
}

/// Returns the week offset for a timing code.
pub fn timing_code_offset(code: TimingCode) -> (r: u8)
    ensures
        r == code_offset(code),
{
    match code {
        TimingCode::FleetCombat => 2,
        TimingCode::Reserved2 => 7,
        TimingCode::ScoutView => 21,
        TimingCode::Standing4 | TimingCode::Standing5 | TimingCode::Standing6
        | TimingCode::IpbmSummary7 => 0,
        TimingCode::HighOffset8 => 30,
    }
}

/// `v` clamped to the weeks of a year, 1..=52.
pub open spec fn clamp_week(v: int) -> u8 {
    if v < 1 {
        1
    } else if v > 52 {
        52
    } else {
        v as u8
    }
}

/// Shifts `base_week` by the code's offset, clamped to 1..=52.
pub fn apply_timing_offset(base_week: u8, code: TimingCode) -> (r: u8)
    ensures
        r == clamp_week(base_week + code_offset(code)),
        1 <= r <= 52,
{
    let raw = base_week as u32 + timing_code_offset(code) as u32;
    if raw < 1 {
        1
    } else if raw > 52 {
        52
    } else {
        raw as u8
    }
}

/// Standing missions: orbit, guard and rendezvous families.
pub open spec fn is_standing_mission(mission: Mission) -> bool {
    mission == Mission::PatrolSector || mission == Mission::GuardStarbase || mission
        == Mission::GuardBlockadeWorld || mission == Mission::RendezvousSector
}

/// The timing code that governs when a mission event is stamped.
pub open spec fn mission_code(mission: Mission) -> TimingCode {
    match mission {
        Mission::ScoutSector | Mission::ScoutSolarSystem | Mission::ViewWorld => TimingCode::ScoutView,
        Mission::PatrolSector | Mission::GuardStarbase | Mission::GuardBlockadeWorld
        | Mission::RendezvousSector => TimingCode::Standing4,
        _ => TimingCode::FleetCombat,
    }
}

/// Returns the timing code that governs when a mission event is stamped.
pub fn mission_timing_code(mission: Mission) -> (r: TimingCode)
    ensures
        r == mission_code(mission),
{
    match mission {
        Mission::ScoutSector | Mission::ScoutSolarSystem | Mission::ViewWorld => TimingCode::ScoutView,
        Mission::PatrolSector | Mission::GuardStarbase | Mission::GuardBlockadeWorld
        | Mission::RendezvousSector => TimingCode::Standing4,
        _ => TimingCode::FleetCombat,
    }
}

/// The base week of a mission: week 1 for standing missions and for no
/// travel; for one year of travel ten weeks per point of speed (at most 50);
/// for two years week 4; longer trips arrive at week 1.
pub open spec fn base_week(mission: Mission, travel_time_years: u8, fleet_speed: u8) -> u8 {
    if is_standing_mission(mission) {
        1
    } else if travel_time_years == 0 || fleet_speed == 0 {
        1
    } else if travel_time_years == 1 {
        if fleet_speed * 10 < 50 {
            (fleet_speed * 10) as u8
        } else {
            50
        }
    } else if travel_time_years == 2 {
        4
    } else {
        1
    }
}

/// The week a mission event falls in: standing missions (patrol, guards,
/// rendezvous) in week 1; scouting and viewing 21 weeks after the base
/// week, everything else 2 weeks after it; the base week is week 1 without
/// travel, ten weeks per point of speed (at most 50) for one year of
/// travel, week 4 for two years and week 1 for longer; never past week 52.
pub proof fn lemma_mission_week_schedule(m: Mission, t: u8, sp: u8)
    ensures
        ({
            let w = clamp_week(base_week(m, t, sp) + code_offset(mission_code(m)));
            let scout = m == Mission::ScoutSector || m == Mission::ScoutSolarSystem || m == Mission::ViewWorld;
            let standing = m == Mission::PatrolSector || m == Mission::GuardStarbase || m
                == Mission::GuardBlockadeWorld || m == Mission::RendezvousSector;
            let base = if t == 0 || sp == 0 {
                1
            } else if t == 1 {
                if 10 * sp < 50 { 10 * sp } else { 50 }
            } else if t == 2 {
                4
            } else {
                1
            };
            &&& standing ==> w == 1
            &&& scout ==> w == (if base + 21 > 52 { 52 } else { base + 21 })
            &&& !standing && !scout ==> w == base + 2
        }),
{
}

/// Derives the base week from mission and travel characteristics.
pub fn event_base_week(mission: Mission, travel_time_years: u8, fleet_speed: u8) -> (r: u8)
    ensures
        r == base_week(mission, travel_time_years, fleet_speed),
        1 <= r <= 50,
{
    let is_standing = match mission {
        Mission::PatrolSector | Mission::GuardStarbase | Mission::GuardBlockadeWorld
        | Mission::RendezvousSector => true,
        _ => false,
    };
    if is_standing {
        return 1;
    }
    if travel_time_years == 0 || fleet_speed == 0 {
        return 1;
    }
    if travel_time_years == 1 {
        let raw = fleet_speed as u32 * 10;
        let raw = if raw < 50 {
            raw
        } else {
            50
        };
        raw as u8
    } else if travel_time_years == 2 {
        4
    } else {
        1
    }
}

/// `Stardate: <week>/<year>`.
pub open spec fn stardate_text(week: u8, year: u16) -> Seq<char> {
    "Stardate: "@ + decimal(week as nat) + "/"@ + decimal(year as nat)
}

/// Formats a report's `Stardate` fragment (no padding on the week).
pub fn format_stardate(week: u8, year: u16) -> (r: String)
    ensures
        r@ == stardate_text(week, year),
{
    let mut s = String::new();
    push_str(&mut s, "Stardate: ");
    push_decimal(&mut s, week as u32);
    push_str(&mut s, "/");
    push_decimal(&mut s, year as u32);
    s
}

/// Width of a report line.
pub const REPORT_LINE_WIDTH: usize = 72;

/// `n` spaces.
pub open spec fn spaces(n: nat) -> Seq<char> {
    Seq::new(n, |i: int| ' ')
}

/// The first line of a report entry: the source clause, then the stardate
/// right-justified to 72 characters, or after a single space when the clause
/// is too long.
pub open spec fn report_first_line(clause: Seq<char>, week: u8, year: u16) -> Seq<char> {
    let sd = stardate_text(week, year);
    if clause.len() + 1 + sd.len() >= 72 {
        clause + " "@ + sd
    } else {
        clause + spaces((72 - clause.len() - sd.len()) as nat) + sd
    }
}

/// A short clause gives a line of exactly 72 characters.
pub proof fn lemma_report_first_line_width(clause: Seq<char>, week: u8, year: u16)
    requires
        clause.len() + 1 + stardate_text(week, year).len() < 72,
    ensures
        report_first_line(clause, week, year).len() == 72,
{
}

/// Formats the first line of a report entry with the stardate right-justified.
pub fn format_report_first_line(source_clause: &str, week: u8, year: u16) -> (r: String)
    ensures
        r@ == report_first_line(source_clause@, week, year),
{
    let stardate = format_stardate(week, year);
    let clause_len = source_clause.unicode_len();
    let stardate_len = stardate.as_str().unicode_len();
    assert(stardate_len == stardate_text(week, year).len());

    let mut s = String::new();
    push_str(&mut s, source_clause);
    assert(s@ =~= source_clause@ + spaces(0));
    if clause_len >= REPORT_LINE_WIDTH || stardate_len >= REPORT_LINE_WIDTH - clause_len
        || clause_len + 1 + stardate_len >= REPORT_LINE_WIDTH {
        push_str(&mut s, " ");
        push_str(&mut s, stardate.as_str());
        assert(s@ =~= source_clause@ + " "@ + stardate_text(week, year));
    } else {
        let padding = REPORT_LINE_WIDTH - clause_len - stardate_len;
        let mut i: usize = 0;
        while i < padding
            invariant
                i <= padding,
                s@ == source_clause@ + spaces(i as nat),
            decreases padding - i,
        {
            push_char(&mut s, ' ');
            i = i + 1;
            assert(s@ =~= source_clause@ + spaces(i as nat));
        }
        push_str(&mut s, stardate.as_str());
    }
    assert(s@ =~= report_first_line(source_clause@, week, year));
    s
}

/// `Stardate: <year> A.D.`
pub open spec fn rankings_stardate_text(year: u16) -> Seq<char> {
    "Stardate: "@ + decimal(year as nat) + " A.D."@
}

/// Formats the year-only rankings banner.
pub fn format_rankings_stardate(year: u16) -> (r: String)
    ensures
        r@ == rankings_stardate_text(year),
{
    let mut s = String::new();
    push_str(&mut s, "Stardate: ");
    push_decimal(&mut s, year as u32);
    push_str(&mut s, " A.D.");
    s
}

} // verus!
