//! One year of travel for one fleet: sub-sector progress, the arrival rules
//! and the transit bytes of the fleet record.
use crate::game::CoreGameData;
use crate::maint::colonization::{first_planet_at, lemma_first_planet_bound, planet_at, planet_raws};
use crate::maint::combat::held_in_place;
use crate::maint::events::{
    DiplomaticEscalationEvent, Mission, MissionEvent, MissionOutcome, PlanetIntelEvent, SalvageFailureReason,
    SalvageResolvedEvent,
};
use crate::maint::movement::{
    queue_local_intrusion_escalation, remap_movement_event_fleet_indices_after_removal, remapped_colonizations,
    remapped_missions, set_fleet_to_deep_space_hold, ColonizationEvent, MovementEvents,
};
use crate::maint::removal::{apply_fleet_removal_remap, fleets_removed};
use crate::records::bytes::{le16, le32, put32};
use crate::records::fleet::{fleet_raws, order_kind_of, FleetRecord, FleetStandingOrderKind};
use crate::records::planet::PlanetRecord;
use vstd::prelude::*;

verus! {

/// The fleet is at rest (0x0D is 0x80), not in transit.
pub open spec fn at_rest(raw: Seq<u8>) -> bool {
    raw[0x0D] == 0x80
}

/// The sub-sector progress (ninths of a sector) that fleet record `raw`
/// carries into the year: 0 at rest, else decoded from the signed byte at
/// 0x0F as 9 + v * 3 / 2 (division toward zero), taken modulo 2^32.
pub open spec fn carried_progress(raw: Seq<u8>) -> int {
    if at_rest(raw) {
        0
    } else {
        let b = raw[0x0F] as int;
        let x = if b < 128 {
            9 + (b * 3) / 2
        } else {
            9 - ((256 - b) * 3) / 2
        };
        if x < 0 {
            x + 0x1_0000_0000
        } else {
            x
        }
    }
}

/// The progress after this year's travel: what was carried plus eight
/// ninths per point of speed (0x0A).
pub open spec fn year_progress(raw: Seq<u8>) -> int {
    carried_progress(raw) + raw[0x0A] * 8
}

/// Whole sectors the fleet may move this year.
pub open spec fn sectors_this_year(raw: Seq<u8>) -> int {
    year_progress(raw) / 9
}

/// The byte that carries `s` ninths (0 to 8) to the next year:
/// (s - 9) * 2 / 3 (division toward zero) as a signed byte.
pub open spec fn progress_byte(s: int) -> u8 {
    let q = ((9 - s) * 2) / 3;
    if q == 0 {
        0
    } else {
        (256 - q) as u8
    }
}

/// The year's travel cannot overflow the 32-bit progress counter.
pub open spec fn progress_fits(raw: Seq<u8>) -> bool {
    year_progress(raw) <= u32::MAX
}

/// Orders that stay in force when their fleet arrives: the mission is
/// carried out on a later tick, or the fleet just stays.
pub open spec fn keeps_order_on_arrival(order: FleetStandingOrderKind) -> bool {
    order == FleetStandingOrderKind::MoveOnly || order == FleetStandingOrderKind::PatrolSector || order
        == FleetStandingOrderKind::BombardWorld || order == FleetStandingOrderKind::InvadeWorld || order
        == FleetStandingOrderKind::BlitzWorld
}

/// Fleet record `raw` after a year's travel to `next`, and whether it is
/// at its target. A fleet with speed 0 stays as it is; one already at its
/// target stops and holds; one that reaches it gets the arrival bytes and,
/// unless its order stays in force, stops and holds; one still on its way
/// gets the transit bytes (when it set out this year) and carries its
/// progress.
pub open spec fn fleet_after_travel(raw: Seq<u8>, next: [u8; 2]) -> (Seq<u8>, bool) {
    if raw[0x0A] == 0 {
        (raw, false)
    } else if raw[0x0B] == raw[0x20] && raw[0x0C] == raw[0x21] {
        (raw.update(0x0A, 0).update(0x1F, 0), true)
    } else {
        let moved = raw.update(0x0B, next@[0]).update(0x0C, next@[1]);
        if next@[0] == raw[0x20] && next@[1] == raw[0x21] {
            let stopped = if keeps_order_on_arrival(order_kind_of(raw[0x1F])) {
                moved
            } else {
                moved.update(0x0A, 0).update(0x1F, 0)
            };
            (
                stopped.update(0x19, 0x80).update(0x1A, 0xb9).update(0x1B, 0xff).update(0x1C, 0xff).update(
                    0x1D,
                    0xff,
                ).update(0x1E, 0x7f),
                true,
            )
        } else {
            let underway = if at_rest(raw) {
                moved.update(0x0D, 0x7f).update(0x0E, 0xc0).update(0x10, 0xff).update(0x11, 0xff).update(
                    0x12,
                    0x7f,
                ).update(0x19, 0)
            } else {
                moved
            };
            (underway.update(0x0F, progress_byte(year_progress(raw) % 9)), false)
        }
    }
}

fn year_progress_of(fleet: &FleetRecord) -> (r: u32)
    requires
        progress_fits(fleet.raw@),
    ensures
        r == year_progress(fleet.raw@),
{
    let prev: u32 = if fleet.raw[0x0D] == 0x80 {
        0
    } else {
        let b = fleet.raw[0x0F] as u32;
        if b < 128 {
            9 + (b * 3) / 2
        } else {
            let m = ((256 - b) * 3) / 2;
            if m <= 9 {
                9 - m
            } else {
                u32::MAX - (m - 10)
            }
        }
    };
    prev + fleet.raw[0x0A] as u32 * 8
}

/// Whole sectors fleet `fleet` may move this year (see `sectors_this_year`).
pub fn fleet_sectors_this_year(fleet: &FleetRecord) -> (r: i32)
    requires
        progress_fits(fleet.raw@),
    ensures
        r == sectors_this_year(fleet.raw@),
{
    (year_progress_of(fleet) / 9) as i32
}

/// Moves fleet `fleet_idx` for one year to `next`, the sector its route
/// reaches with `fleet_sectors_this_year` sectors of travel (see
/// `fleet_after_travel`). Returns whether the fleet is at its target.
pub fn process_single_fleet_movement(game_data: &mut CoreGameData, fleet_idx: usize, next: [u8; 2]) -> (arrived:
    bool)
    requires
        fleet_idx < old(game_data).fleets.records@.len(),
        ({
            let raw = old(game_data).fleets.records@[fleet_idx as int].raw@;
            raw[0x0A] == 0 || (raw[0x0B] == raw[0x20] && raw[0x0C] == raw[0x21]) || progress_fits(raw)
        }),
    ensures
        final(game_data).fleets.records@.len() == old(game_data).fleets.records@.len(),
        forall|k: int|
            0 <= k < old(game_data).fleets.records@.len() && k != fleet_idx ==> #[trigger] final(game_data).fleets.records@[k] == old(game_data).fleets.records@[k],
        (final(game_data).fleets.records@[fleet_idx as int].raw@, arrived) == fleet_after_travel(
            old(game_data).fleets.records@[fleet_idx as int].raw@,
            next,
        ),
        final(game_data).player == old(game_data).player,
        final(game_data).planets == old(game_data).planets,
        final(game_data).bases == old(game_data).bases,
        final(game_data).ipbm == old(game_data).ipbm,
        final(game_data).setup == old(game_data).setup,
        final(game_data).conquest == old(game_data).conquest,
{
    let mut fleet = FleetRecord { raw: game_data.fleets.records[fleet_idx].raw };
    let ghost raw0 = fleet.raw@;
    if fleet.current_speed() == 0 {
        return false;
    }
    let cur = fleet.current_location_coords_raw();
    let target = fleet.standing_order_target_coords_raw();
    let arrived;
    if cur[0] == target[0] && cur[1] == target[1] {
        fleet.set_current_speed(0);
        fleet.set_standing_order_kind(FleetStandingOrderKind::HoldPosition);
        arrived = true;
    } else {
        let progress = year_progress_of(&fleet);
        let was_at_rest = fleet.raw[0x0D] == 0x80;
        fleet.raw[0x0B] = next[0];
        fleet.raw[0x0C] = next[1];
        if next[0] == target[0] && next[1] == target[1] {
            let keeps = match fleet.standing_order_kind() {
                FleetStandingOrderKind::MoveOnly => true,
                FleetStandingOrderKind::PatrolSector => true,
                FleetStandingOrderKind::BombardWorld => true,
                FleetStandingOrderKind::InvadeWorld => true,
                FleetStandingOrderKind::BlitzWorld => true,
                _ => false,
            };
            if !keeps {
                fleet.set_current_speed(0);
                fleet.set_standing_order_kind(FleetStandingOrderKind::HoldPosition);
            }
            fleet.raw[0x19] = 0x80;
            fleet.raw[0x1a] = 0xb9;
            fleet.raw[0x1b] = 0xff;
            fleet.raw[0x1c] = 0xff;
            fleet.raw[0x1d] = 0xff;
            fleet.raw[0x1e] = 0x7f;
            arrived = true;
        } else {
            if was_at_rest {
                fleet.raw[0x0d] = 0x7f;
                fleet.raw[0x0e] = 0xc0;
                fleet.raw[0x10] = 0xff;
                fleet.raw[0x11] = 0xff;
                fleet.raw[0x12] = 0x7f;
                fleet.raw[0x19] = 0x00;
            }
            let s = progress % 9;
            let q = ((9 - s) * 2) / 3;
            fleet.raw[0x0f] = if q == 0 {
                0
            } else {
                (256 - q) as u8
            };
            arrived = false;
        }
    }
    proof {
        assert(fleet.raw@ =~= fleet_after_travel(raw0, next).0);
    }
    game_data.fleets.records.set(fleet_idx, fleet);
    arrived
}

/// What salvaging fleet record `f` recovers: half the purchase cost of what
/// it holds (destroyers and transports 5, cruisers and scouts 15,
/// battleships 45, colony ships 20, armies 2).
pub open spec fn salvage_value(f: Seq<u8>) -> int {
    (le16(f, 0x2A) * 5 + le16(f, 0x28) * 15 + le16(f, 0x26) * 45 + f[0x24] * 15 + le16(f, 0x2C) * 5 + le16(f, 0x30)
        * 20 + le16(f, 0x2E) * 2) / 2
}

/// A mission report of fleet `i` at `target`.
pub open spec fn mission_report(
    i: int,
    owner: u8,
    kind: Mission,
    outcome: MissionOutcome,
    planet: Option<int>,
    target: [u8; 2],
) -> MissionEvent {
    MissionEvent {
        fleet_idx: i as usize,
        owner_empire_raw: owner,
        kind,
        outcome,
        planet_idx: match planet {
            Some(p) => Some(p as usize),
            None => None,
        },
        location_coords: Some(target),
        target_coords: Some(target),
        stardate_week: None,
    }
}

/// The escalation an intrusion by `owner` into the world `planet` (if any)
/// raises: one, unless the world is unowned or its own.
pub open spec fn intrusion_at(planets: Seq<Seq<u8>>, planet: Option<int>, owner: u8) -> Seq<DiplomaticEscalationEvent> {
    match planet {
        Some(p) => if owner != 0 && planets[p][0x5D] != 0 && owner != planets[p][0x5D] {
            seq![
                DiplomaticEscalationEvent {
                    left_empire_raw: owner,
                    right_empire_raw: planets[p][0x5D],
                    stardate_week: None,
                },
            ]
        } else {
            Seq::empty()
        },
        None => Seq::empty(),
    }
}

/// One fleet's year: its record, the planet records, the colonizations,
/// world sightings, mission reports, escalations and salvage reports it
/// adds, and whether it is to be removed.
pub type FleetYear = (
    Seq<u8>,
    Seq<Seq<u8>>,
    Seq<ColonizationEvent>,
    Seq<PlanetIntelEvent>,
    Seq<MissionEvent>,
    Seq<DiplomaticEscalationEvent>,
    Seq<SalvageResolvedEvent>,
    bool,
);

/// A year with nothing but the fleet record `f` and the mission reports `m`.
pub open spec fn quiet_year(f: Seq<u8>, planets: Seq<Seq<u8>>, m: Seq<MissionEvent>) -> FleetYear {
    (f, planets, Seq::empty(), Seq::empty(), m, Seq::empty(), Seq::empty(), false)
}

/// Fleet `i` (record `f`) salvages at `target`, where world `planet` lies
/// (if any): into a world of its own empire it pays what it holds and is
/// removed when that is more than nothing; else it stops and holds where it
/// is.
pub open spec fn salvage_year(i: int, f: Seq<u8>, planets: Seq<Seq<u8>>, planet: Option<int>, target: [u8; 2]) -> FleetYear {
    let owner = f[0x02];
    let coords = [f[0x0B], f[0x0C]];
    let held = f.update(0x0A, 0).update(0x1F, 0).update(0x20, f[0x0B]).update(0x21, f[0x0C]);
    match planet {
        None => (
            held,
            planets,
            Seq::empty(),
            Seq::empty(),
            seq![mission_report(i, owner, Mission::Salvage, MissionOutcome::Failed, None, target)],
            Seq::empty(),
            seq![
                SalvageResolvedEvent::Failed {
                    fleet_idx: i as usize,
                    owner_empire_raw: owner,
                    planet_idx: None,
                    coords,
                    reason: SalvageFailureReason::NoPlanetAtTarget,
                    stardate_week: None,
                },
            ],
            false,
        ),
        Some(p) => if planets[p][0x5D] != owner {
            (
                held,
                planets,
                Seq::empty(),
                Seq::empty(),
                seq![mission_report(i, owner, Mission::Salvage, MissionOutcome::Failed, Some(p), target)],
                Seq::empty(),
                seq![
                    SalvageResolvedEvent::Failed {
                        fleet_idx: i as usize,
                        owner_empire_raw: owner,
                        planet_idx: Some(p as usize),
                        coords,
                        reason: SalvageFailureReason::PlanetNotOwned,
                        stardate_week: None,
                    },
                ],
                false,
            )
        } else {
            (
                f,
                planets.update(p, put32(planets[p], 0x0A, sat32(le32(planets[p], 0x0A) + salvage_value(f)))),
                Seq::empty(),
                Seq::empty(),
                seq![mission_report(i, owner, Mission::Salvage, MissionOutcome::Succeeded, Some(p), target)],
                Seq::empty(),
                seq![
                    SalvageResolvedEvent::Succeeded {
                        fleet_idx: i as usize,
                        owner_empire_raw: owner,
                        planet_idx: p as usize,
                        coords,
                        recovered_points: salvage_value(f) as u32,
                        stardate_week: None,
                    },
                ],
                salvage_value(f) > 0,
            )
        },
    }
}

/// `x` capped at the largest 32-bit value.
pub open spec fn sat32(x: int) -> u32 {
    if x > u32::MAX {
        u32::MAX
    } else {
        x as u32
    }
}

/// What arriving at `target` with order `order` reports, for fleet `i` whose
/// record after the move is `f`.
pub open spec fn arrival_year(
    i: int,
    f: Seq<u8>,
    order: FleetStandingOrderKind,
    planets: Seq<Seq<u8>>,
    target: [u8; 2],
) -> FleetYear {
    let owner = f[0x02];
    let planet = first_planet_at(planets, target, planets.len() as int);
    let report = |kind: Mission, outcome: MissionOutcome, p: Option<int>| seq![mission_report(i, owner, kind, outcome, p, target)];
    match order {
        FleetStandingOrderKind::ColonizeWorld => (
            f,
            planets,
            seq![ColonizationEvent { fleet_idx: i as usize, coords: target, owner_empire: owner }],
            Seq::empty(),
            Seq::empty(),
            Seq::empty(),
            Seq::empty(),
            false,
        ),
        FleetStandingOrderKind::ScoutSector => quiet_year(f, planets, report(Mission::ScoutSector, MissionOutcome::Succeeded, None)),
        FleetStandingOrderKind::ScoutSolarSystem => (
            f,
            planets,
            Seq::empty(),
            match planet {
                Some(p) => seq![PlanetIntelEvent { planet_idx: p as usize, viewer_empire_raw: owner }],
                None => Seq::empty(),
            },
            report(Mission::ScoutSolarSystem, MissionOutcome::Succeeded, None),
            Seq::empty(),
            Seq::empty(),
            false,
        ),
        FleetStandingOrderKind::ViewWorld => (
            held_in_place(f, false),
            planets,
            Seq::empty(),
            match planet {
                Some(p) => seq![PlanetIntelEvent { planet_idx: p as usize, viewer_empire_raw: owner }],
                None => Seq::empty(),
            },
            report(
                Mission::ViewWorld,
                if planet is Some {
                    MissionOutcome::Succeeded
                } else {
                    MissionOutcome::Failed
                },
                planet,
            ),
            Seq::empty(),
            Seq::empty(),
            false,
        ),
        FleetStandingOrderKind::Salvage => salvage_year(i, f, planets, planet, target),
        FleetStandingOrderKind::GuardStarbase => quiet_year(f, planets, report(Mission::GuardStarbase, MissionOutcome::Arrived, None)),
        FleetStandingOrderKind::RendezvousSector => quiet_year(
            f,
            planets,
            report(Mission::RendezvousSector, MissionOutcome::Arrived, None),
        ),
        FleetStandingOrderKind::MoveOnly => quiet_year(f, planets, report(Mission::MoveOnly, MissionOutcome::Succeeded, None)),
        FleetStandingOrderKind::PatrolSector => quiet_year(f, planets, report(Mission::PatrolSector, MissionOutcome::Arrived, None)),
        FleetStandingOrderKind::SeekHome => quiet_year(f, planets, report(Mission::SeekHome, MissionOutcome::Succeeded, planet)),
        FleetStandingOrderKind::GuardBlockadeWorld => (
            f,
            planets,
            Seq::empty(),
            Seq::empty(),
            report(Mission::GuardBlockadeWorld, MissionOutcome::Arrived, planet),
            intrusion_at(planets, planet, owner),
            Seq::empty(),
            false,
        ),
        FleetStandingOrderKind::BombardWorld => (
            f,
            planets,
            Seq::empty(),
            Seq::empty(),
            report(Mission::BombardWorld, MissionOutcome::Arrived, planet),
            intrusion_at(planets, planet, owner),
            Seq::empty(),
            false,
        ),
        FleetStandingOrderKind::InvadeWorld => (
            f,
            planets,
            Seq::empty(),
            Seq::empty(),
            report(Mission::InvadeWorld, MissionOutcome::Arrived, planet),
            intrusion_at(planets, planet, owner),
            Seq::empty(),
            false,
        ),
        FleetStandingOrderKind::BlitzWorld => (
            f,
            planets,
            Seq::empty(),
            Seq::empty(),
            report(Mission::BlitzWorld, MissionOutcome::Arrived, planet),
            intrusion_at(planets, planet, owner),
            Seq::empty(),
            false,
        ),
        _ => quiet_year(f, planets, Seq::empty()),
    }
}

/// The fleet travels this year: it has speed, an order other than holding,
/// and is not at its target.
pub open spec fn travels(f: Seq<u8>) -> bool {
    f[0x0A] > 0 && f[0x1F] != 0 && !(f[0x0B] == f[0x20] && f[0x0C] == f[0x21])
}

/// Fleet `i` (record `f`, next sector `next`) in the year's movement: a
/// salvage fleet at its target salvages; a travelling fleet moves and, on
/// arrival, carries out what its order asks; any other fleet stays.
pub open spec fn fleet_year(i: int, f: Seq<u8>, next: [u8; 2], planets: Seq<Seq<u8>>) -> FleetYear {
    let order = order_kind_of(f[0x1F]);
    let target = [f[0x20], f[0x21]];
    if order == FleetStandingOrderKind::Salvage && f[0x0B] == f[0x20] && f[0x0C] == f[0x21] {
        salvage_year(i, f, planets, first_planet_at(planets, target, planets.len() as int), target)
    } else if travels(f) {
        let moved = fleet_after_travel(f, next);
        if moved.1 {
            arrival_year(i, moved.0, order, planets, target)
        } else {
            quiet_year(moved.0, planets, Seq::empty())
        }
    } else {
        quiet_year(f, planets, Seq::empty())
    }
}

/// The movement of the first `n` fleets: fleet records, planet records,
/// the five event lists and the removal marks.
pub type MovementFold = (
    Seq<Seq<u8>>,
    Seq<Seq<u8>>,
    Seq<ColonizationEvent>,
    Seq<PlanetIntelEvent>,
    Seq<MissionEvent>,
    Seq<DiplomaticEscalationEvent>,
    Seq<SalvageResolvedEvent>,
    Seq<bool>,
);

pub open spec fn movement_fold(fleets: Seq<Seq<u8>>, planets: Seq<Seq<u8>>, next: Seq<[u8; 2]>, n: int) -> MovementFold
    decreases n,
{
    if n <= 0 {
        (fleets, planets, Seq::empty(), Seq::empty(), Seq::empty(), Seq::empty(), Seq::empty(), Seq::empty())
    } else {
        let s = movement_fold(fleets, planets, next, n - 1);
        let y = fleet_year(n - 1, fleets[n - 1], next[n - 1], s.1);
        (s.0.update(n - 1, y.0), y.1, s.2 + y.2, s.3 + y.3, s.4 + y.4, s.5 + y.5, s.6 + y.6, s.7.push(y.7))
    }
}


/// `g1` and `e1` are `g0` and `e0` after fleet `i`'s year `y`: its record
/// and the planet records replaced, the event lists extended.
pub open spec fn year_applied(
    g0: CoreGameData,
    g1: CoreGameData,
    e0: MovementEvents,
    e1: MovementEvents,
    i: int,
    y: FleetYear,
) -> bool {
    &&& fleet_raws(g1.fleets.records@) == fleet_raws(g0.fleets.records@).update(i, y.0)
    &&& g1.fleets.records@.len() == g0.fleets.records@.len()
    &&& planet_raws(g1.planets.records@) == y.1
    &&& e1.colonization_events@ == e0.colonization_events@ + y.2
    &&& e1.planet_intel_events@ == e0.planet_intel_events@ + y.3
    &&& e1.mission_events@ == e0.mission_events@ + y.4
    &&& e1.diplomatic_escalation_events@ == e0.diplomatic_escalation_events@ + y.5
    &&& e1.salvage_events@ == e0.salvage_events@ + y.6
    &&& g1.player == g0.player
    &&& g1.bases == g0.bases
    &&& g1.ipbm == g0.ipbm
    &&& g1.setup == g0.setup
    &&& g1.conquest == g0.conquest
}

fn salvage_value_of(f: &FleetRecord) -> (r: u32)
    ensures
        r == salvage_value(f.raw@),
{
    (f.destroyer_count() as u32 * 5 + f.cruiser_count() as u32 * 15 + f.battleship_count() as u32 * 45
        + f.scout_count() as u32 * 15 + f.troop_transport_count() as u32 * 5 + f.etac_count() as u32 * 20
        + f.army_count() as u32 * 2) / 2
}

fn push_mission(
    events: &mut MovementEvents,
    i: usize,
    owner: u8,
    kind: Mission,
    outcome: MissionOutcome,
    planet: Option<usize>,
    target: [u8; 2],
)
    ensures
        final(events).mission_events@ == old(events).mission_events@.push(
            mission_report(
                i as int,
                owner,
                kind,
                outcome,
                match planet {
                    Some(p) => Some(p as int),
                    None => None,
                },
                target,
            ),
        ),
        final(events).colonization_events == old(events).colonization_events,
        final(events).planet_intel_events == old(events).planet_intel_events,
        final(events).diplomatic_escalation_events == old(events).diplomatic_escalation_events,
        final(events).salvage_events == old(events).salvage_events,
{
    events.mission_events.push(
        MissionEvent {
            fleet_idx: i,
            owner_empire_raw: owner,
            kind,
            outcome,
            planet_idx: planet,
            location_coords: Some(target),
            target_coords: Some(target),
            stardate_week: None,
        },
    );
}

spec fn opt_int(p: Option<usize>) -> Option<int> {
    match p {
        Some(x) => Some(x as int),
        None => None,
    }
}

fn salvage_fleet(
    game_data: &mut CoreGameData,
    i: usize,
    planet: Option<usize>,
    target: [u8; 2],
    events: &mut MovementEvents,
) -> (removed: bool)
    requires
        i < old(game_data).fleets.records@.len(),
        planet matches Some(p) ==> p < 20,
    ensures
        year_applied(
            *old(game_data),
            *final(game_data),
            *old(events),
            *final(events),
            i as int,
            salvage_year(
                i as int,
                old(game_data).fleets.records@[i as int].raw@,
                planet_raws(old(game_data).planets.records@),
                opt_int(planet),
                target,
            ),
        ),
        removed == salvage_year(
            i as int,
            old(game_data).fleets.records@[i as int].raw@,
            planet_raws(old(game_data).planets.records@),
            opt_int(planet),
            target,
        ).7,
{
    let ghost g0 = *game_data;
    let ghost e0 = *events;
    let mut f = FleetRecord { raw: game_data.fleets.records[i].raw };
    let ghost f0 = f.raw@;
    let owner = f.owner_empire_raw();
    let coords = f.current_location_coords_raw();
    assert(coords =~= [f0[0x0B], f0[0x0C]]);
    let ghost y = salvage_year(i as int, f0, planet_raws(g0.planets.records@), opt_int(planet), target);
    let owned = match planet {
        Some(p) => game_data.planets.records[p].owner_empire_slot_raw() == owner,
        None => false,
    };
    if !owned {
        f.set_current_speed(0);
        f.set_standing_order_kind(FleetStandingOrderKind::HoldPosition);
        f.set_standing_order_target_coords_raw(coords);
        assert(f.raw@ =~= y.0);
        game_data.fleets.records.set(i, f);
        push_mission(events, i, owner, Mission::Salvage, MissionOutcome::Failed, planet, target);
        let reason = match planet {
            Some(_) => SalvageFailureReason::PlanetNotOwned,
            None => SalvageFailureReason::NoPlanetAtTarget,
        };
        events.salvage_events.push(
            SalvageResolvedEvent::Failed {
                fleet_idx: i,
                owner_empire_raw: owner,
                planet_idx: planet,
                coords,
                reason,
                stardate_week: None,
            },
        );
        proof {
            assert(fleet_raws(game_data.fleets.records@) =~= fleet_raws(g0.fleets.records@).update(i as int, y.0));
            assert(planet_raws(game_data.planets.records@) =~= y.1);
            assert(events.colonization_events@ =~= e0.colonization_events@ + y.2);
            assert(events.planet_intel_events@ =~= e0.planet_intel_events@ + y.3);
            assert(events.mission_events@ =~= e0.mission_events@ + y.4);
            assert(events.diplomatic_escalation_events@ =~= e0.diplomatic_escalation_events@ + y.5);
            assert(events.salvage_events@ =~= e0.salvage_events@ + y.6);
        }
        false
    } else {
        let p = planet.unwrap();
        let recovered = salvage_value_of(&f);
        let mut world = PlanetRecord { raw: game_data.planets.records[p].raw };
        let stored = world.stored_goods_raw();
        world.set_stored_goods_raw(stored.saturating_add(recovered));
        assert(planet_raws(g0.planets.records@)[p as int] == g0.planets.records@[p as int].raw@);
        game_data.planets.records[p] = world;
        push_mission(events, i, owner, Mission::Salvage, MissionOutcome::Succeeded, planet, target);
        events.salvage_events.push(
            SalvageResolvedEvent::Succeeded {
                fleet_idx: i,
                owner_empire_raw: owner,
                planet_idx: p,
                coords,
                recovered_points: recovered,
                stardate_week: None,
            },
        );
        proof {
            assert(fleet_raws(game_data.fleets.records@) =~= fleet_raws(g0.fleets.records@).update(i as int, y.0));
            assert(planet_raws(game_data.planets.records@) =~= y.1);
            assert(events.colonization_events@ =~= e0.colonization_events@ + y.2);
            assert(events.planet_intel_events@ =~= e0.planet_intel_events@ + y.3);
            assert(events.mission_events@ =~= e0.mission_events@ + y.4);
            assert(events.diplomatic_escalation_events@ =~= e0.diplomatic_escalation_events@ + y.5);
            assert(events.salvage_events@ =~= e0.salvage_events@ + y.6);
        }
        recovered > 0
    }
}

fn arrive_fleet(
    game_data: &mut CoreGameData,
    i: usize,
    order: FleetStandingOrderKind,
    target: [u8; 2],
    events: &mut MovementEvents,
) -> (removed: bool)
    requires
        i < old(game_data).fleets.records@.len(),
    ensures
        year_applied(
            *old(game_data),
            *final(game_data),
            *old(events),
            *final(events),
            i as int,
            arrival_year(
                i as int,
                old(game_data).fleets.records@[i as int].raw@,
                order,
                planet_raws(old(game_data).planets.records@),
                target,
            ),
        ),
        removed == arrival_year(
            i as int,
            old(game_data).fleets.records@[i as int].raw@,
            order,
            planet_raws(old(game_data).planets.records@),
            target,
        ).7,
{
    let ghost g0 = *game_data;
    let ghost e0 = *events;
    let ghost f0 = game_data.fleets.records@[i as int].raw@;
    let ghost planets0 = planet_raws(g0.planets.records@);
    let ghost y = arrival_year(i as int, f0, order, planets0, target);
    let owner = game_data.fleets.records[i].owner_empire_raw();
    let planet = planet_at(&game_data.planets.records, target);
    assert(planets0.len() == 20);
    assert(opt_int(planet) == first_planet_at(planets0, target, planets0.len() as int));
    let mut removed = false;
    match order {
        FleetStandingOrderKind::Salvage => {
            removed = salvage_fleet(game_data, i, planet, target, events);
            return removed;
        },
        FleetStandingOrderKind::ColonizeWorld => {
            events.colonization_events.push(ColonizationEvent { fleet_idx: i, coords: target, owner_empire: owner });
        },
        FleetStandingOrderKind::ScoutSector => {
            push_mission(events, i, owner, Mission::ScoutSector, MissionOutcome::Succeeded, None, target);
        },
        FleetStandingOrderKind::ScoutSolarSystem => {
            match planet {
                Some(p) => {
                    events.planet_intel_events.push(PlanetIntelEvent { planet_idx: p, viewer_empire_raw: owner });
                },
                None => {},
            }
            push_mission(events, i, owner, Mission::ScoutSolarSystem, MissionOutcome::Succeeded, None, target);
        },
        FleetStandingOrderKind::ViewWorld => {
            let outcome = match planet {
                Some(p) => {
                    events.planet_intel_events.push(PlanetIntelEvent { planet_idx: p, viewer_empire_raw: owner });
                    MissionOutcome::Succeeded
                },
                None => MissionOutcome::Failed,
            };
            push_mission(events, i, owner, Mission::ViewWorld, outcome, planet, target);
            let mut f = FleetRecord { raw: game_data.fleets.records[i].raw };
            set_fleet_to_deep_space_hold(&mut f);
            game_data.fleets.records.set(i, f);
        },
        FleetStandingOrderKind::GuardStarbase => {
            push_mission(events, i, owner, Mission::GuardStarbase, MissionOutcome::Arrived, None, target);
        },
        FleetStandingOrderKind::RendezvousSector => {
            push_mission(events, i, owner, Mission::RendezvousSector, MissionOutcome::Arrived, None, target);
        },
        FleetStandingOrderKind::MoveOnly => {
            push_mission(events, i, owner, Mission::MoveOnly, MissionOutcome::Succeeded, None, target);
        },
        FleetStandingOrderKind::PatrolSector => {
            push_mission(events, i, owner, Mission::PatrolSector, MissionOutcome::Arrived, None, target);
        },
        FleetStandingOrderKind::SeekHome => {
            push_mission(events, i, owner, Mission::SeekHome, MissionOutcome::Succeeded, planet, target);
        },
        FleetStandingOrderKind::GuardBlockadeWorld | FleetStandingOrderKind::BombardWorld
        | FleetStandingOrderKind::InvadeWorld | FleetStandingOrderKind::BlitzWorld => {
            match planet {
                Some(p) => {
                    let defender = game_data.planets.records[p].owner_empire_slot_raw();
                    assert(planets0[p as int] == g0.planets.records@[p as int].raw@);
                    queue_local_intrusion_escalation(events, owner, defender);
                },
                None => {},
            }
            let kind = match order {
                FleetStandingOrderKind::GuardBlockadeWorld => Mission::GuardBlockadeWorld,
                FleetStandingOrderKind::BombardWorld => Mission::BombardWorld,
                FleetStandingOrderKind::InvadeWorld => Mission::InvadeWorld,
                _ => Mission::BlitzWorld,
            };
            push_mission(events, i, owner, kind, MissionOutcome::Arrived, planet, target);
        },
        _ => {},
    }
    proof {
        assert(fleet_raws(game_data.fleets.records@) =~= fleet_raws(g0.fleets.records@).update(i as int, y.0));
        assert(planet_raws(game_data.planets.records@) =~= y.1);
        assert(events.colonization_events@ =~= e0.colonization_events@ + y.2);
        assert(events.planet_intel_events@ =~= e0.planet_intel_events@ + y.3);
        assert(events.mission_events@ =~= e0.mission_events@ + y.4);
        assert(events.diplomatic_escalation_events@ =~= e0.diplomatic_escalation_events@ + y.5);
        assert(events.salvage_events@ =~= e0.salvage_events@ + y.6);
    }
    removed
}

fn move_fleet(game_data: &mut CoreGameData, i: usize, next: [u8; 2], events: &mut MovementEvents) -> (removed: bool)
    requires
        i < old(game_data).fleets.records@.len(),
        travels(old(game_data).fleets.records@[i as int].raw@) ==> progress_fits(
            old(game_data).fleets.records@[i as int].raw@,
        ),
    ensures
        year_applied(
            *old(game_data),
            *final(game_data),
            *old(events),
            *final(events),
            i as int,
            fleet_year(
                i as int,
                old(game_data).fleets.records@[i as int].raw@,
                next,
                planet_raws(old(game_data).planets.records@),
            ),
        ),
        removed == fleet_year(
            i as int,
            old(game_data).fleets.records@[i as int].raw@,
            next,
            planet_raws(old(game_data).planets.records@),
        ).7,
{
    let ghost g0 = *game_data;
    let ghost e0 = *events;
    let ghost f0 = game_data.fleets.records@[i as int].raw@;
    let ghost planets0 = planet_raws(g0.planets.records@);
    let ghost y = fleet_year(i as int, f0, next, planets0);
    let order = game_data.fleets.records[i].standing_order_kind();
    let target = game_data.fleets.records[i].standing_order_target_coords_raw();
    let current = game_data.fleets.records[i].current_location_coords_raw();
    let speed = game_data.fleets.records[i].current_speed();
    let code = game_data.fleets.records[i].standing_order_code_raw();
    assert(target =~= [f0[0x20], f0[0x21]]);
    let here = current[0] == target[0] && current[1] == target[1];
    let salvaging = match order {
        FleetStandingOrderKind::Salvage => true,
        _ => false,
    };
    if salvaging && here {
        let planet = planet_at(&game_data.planets.records, target);
        assert(opt_int(planet) == first_planet_at(planets0, target, planets0.len() as int));
        return salvage_fleet(game_data, i, planet, target, events);
    }
    if speed > 0 && code != 0 && !here {
        let arrived = process_single_fleet_movement(game_data, i, next);
        if arrived {
            proof {
                assert(game_data.fleets.records@[i as int].raw@ == fleet_after_travel(f0, next).0);
                assert(planet_raws(game_data.planets.records@) == planets0);
            }
            let ghost g1 = *game_data;
            let removed = arrive_fleet(game_data, i, order, target, events);
            proof {
                assert(fleet_raws(game_data.fleets.records@) =~= fleet_raws(g0.fleets.records@).update(i as int, y.0)) by {
                    assert(fleet_raws(g1.fleets.records@) =~= fleet_raws(g0.fleets.records@).update(
                        i as int,
                        fleet_after_travel(f0, next).0,
                    ));
                }
            }
            return removed;
        }
        proof {
            assert(fleet_raws(game_data.fleets.records@) =~= fleet_raws(g0.fleets.records@).update(i as int, y.0));
            assert(events.colonization_events@ =~= e0.colonization_events@ + y.2);
            assert(events.planet_intel_events@ =~= e0.planet_intel_events@ + y.3);
            assert(events.mission_events@ =~= e0.mission_events@ + y.4);
            assert(events.diplomatic_escalation_events@ =~= e0.diplomatic_escalation_events@ + y.5);
            assert(events.salvage_events@ =~= e0.salvage_events@ + y.6);
        }
        return false;
    }
    proof {
        assert(fleet_raws(game_data.fleets.records@) =~= fleet_raws(g0.fleets.records@).update(i as int, y.0));
        assert(events.colonization_events@ =~= e0.colonization_events@ + y.2);
        assert(events.planet_intel_events@ =~= e0.planet_intel_events@ + y.3);
        assert(events.mission_events@ =~= e0.mission_events@ + y.4);
        assert(events.diplomatic_escalation_events@ =~= e0.diplomatic_escalation_events@ + y.5);
        assert(events.salvage_events@ =~= e0.salvage_events@ + y.6);
    }
    false
}

/// `mid` holds the fleet and planet records after the year's movement `m`,
/// and the rest of `g` as it was.
pub open spec fn moved_state(g: CoreGameData, mid: CoreGameData, m: MovementFold) -> bool {
    &&& fleet_raws(mid.fleets.records@) == m.0
    &&& mid.fleets.records@.len() == g.fleets.records@.len()
    &&& planet_raws(mid.planets.records@) == m.1
    &&& mid.player == g.player
    &&& mid.bases == g.bases
    &&& mid.ipbm == g.ipbm
    &&& mid.setup == g.setup
    &&& mid.conquest == g.conquest
}

/// Some fleet is marked.
pub open spec fn any_marked(marks: Seq<bool>) -> bool {
    exists|i: int| 0 <= i < marks.len() && #[trigger] marks[i]
}

proof fn lemma_fold_shape(fleets: Seq<Seq<u8>>, planets: Seq<Seq<u8>>, next: Seq<[u8; 2]>, n: int)
    requires
        0 <= n <= fleets.len(),
    ensures
        movement_fold(fleets, planets, next, n).0.len() == fleets.len(),
        movement_fold(fleets, planets, next, n).7.len() == n,
        forall|j: int| n <= j < fleets.len() ==> #[trigger] movement_fold(fleets, planets, next, n).0[j] == fleets[j],
    decreases n,
{
    if n > 0 {
        lemma_fold_shape(fleets, planets, next, n - 1);
    }
}

/// Moves every fleet for one year, in record order (see `fleet_year`):
/// `next_positions` gives, for each fleet, the sector its route reaches
/// this year. Fleets that salvaged something are then removed, the fleet
/// ids renumbered, and the colonization and mission reports renumbered to
/// match (reports of removed fleets dropped).
pub fn process_fleet_movement(game_data: &mut CoreGameData, next_positions: &[[u8; 2]]) -> (r: MovementEvents)
    requires
        next_positions@.len() == old(game_data).fleets.records@.len(),
        forall|i: int|
            0 <= i < old(game_data).fleets.records@.len() && travels(
                #[trigger] old(game_data).fleets.records@[i].raw@,
            ) ==> progress_fits(old(game_data).fleets.records@[i].raw@),
    ensures
        ({
            let m = movement_fold(
                fleet_raws(old(game_data).fleets.records@),
                planet_raws(old(game_data).planets.records@),
                next_positions@,
                old(game_data).fleets.records@.len() as int,
            );
            &&& r.planet_intel_events@ == m.3
            &&& r.diplomatic_escalation_events@ == m.5
            &&& r.salvage_events@ == m.6
            &&& !any_marked(m.7) ==> moved_state(*old(game_data), *final(game_data), m) && r.colonization_events@
                == m.2 && r.mission_events@ == m.4
            &&& any_marked(m.7) ==> (exists|mid: CoreGameData|
                #[trigger] moved_state(*old(game_data), mid, m) && fleets_removed(mid, *final(game_data), m.7))
                && r.colonization_events@ == remapped_colonizations(m.2, m.7) && r.mission_events@
                == remapped_missions(m.4, m.7)
        }),
{
    let ghost g0 = *game_data;
    let ghost fleets0 = fleet_raws(g0.fleets.records@);
    let ghost planets0 = planet_raws(g0.planets.records@);
    let n = game_data.fleets.records.len();
    let mut events = MovementEvents {
        colonization_events: Vec::new(),
        planet_intel_events: Vec::new(),
        mission_events: Vec::new(),
        diplomatic_escalation_events: Vec::new(),
        salvage_events: Vec::new(),
    };
    let mut marks: Vec<bool> = Vec::new();
    let mut i: usize = 0;
    while i < n
        invariant
            i <= n == fleets0.len() == next_positions@.len(),
            game_data.fleets.records@.len() == n,
            fleets0 == fleet_raws(g0.fleets.records@),
            planets0 == planet_raws(g0.planets.records@),
            forall|q: int|
                0 <= q < n && travels(#[trigger] fleets0[q]) ==> progress_fits(fleets0[q]),
            ({
                let m = movement_fold(fleets0, planets0, next_positions@, i as int);
                &&& fleet_raws(game_data.fleets.records@) == m.0
                &&& planet_raws(game_data.planets.records@) == m.1
                &&& events.colonization_events@ == m.2
                &&& events.planet_intel_events@ == m.3
                &&& events.mission_events@ == m.4
                &&& events.diplomatic_escalation_events@ == m.5
                &&& events.salvage_events@ == m.6
                &&& marks@ == m.7
            }),
            game_data.player == g0.player,
            game_data.bases == g0.bases,
            game_data.ipbm == g0.ipbm,
            game_data.setup == g0.setup,
            game_data.conquest == g0.conquest,
        decreases n - i,
    {
        proof {
            lemma_fold_shape(fleets0, planets0, next_positions@, i as int);
            assert(game_data.fleets.records@[i as int].raw@ == fleet_raws(game_data.fleets.records@)[i as int]);
            assert(fleets0[i as int] == g0.fleets.records@[i as int].raw@);
        }
        let removed = move_fleet(game_data, i, next_positions[i], &mut events);
        marks.push(removed);
        i = i + 1;
    }
    proof {
        lemma_fold_shape(fleets0, planets0, next_positions@, n as int);
    }
    let ghost m = movement_fold(fleets0, planets0, next_positions@, n as int);
    let mut any = false;
    let mut q: usize = 0;
    while q < n
        invariant
            q <= n == marks@.len(),
            any <==> exists|j: int| 0 <= j < q && #[trigger] marks@[j],
        decreases n - q,
    {
        if marks[q] {
            any = true;
        }
        q = q + 1;
    }
    if any {
        let ghost mid = *game_data;
        assert(moved_state(g0, mid, m));
        remap_movement_event_fleet_indices_after_removal(&mut events, marks.as_slice());
        apply_fleet_removal_remap(game_data, marks.as_slice());
        assert(fleets_removed(mid, *game_data, m.7));
    }
    events
}

/// A fleet that neither travels nor salvages where it stands keeps its
/// record and reports nothing; only a salvage fleet is ever removed.
pub proof fn lemma_fleet_year_bounds(i: int, f: Seq<u8>, next: [u8; 2], planets: Seq<Seq<u8>>)
    ensures
        !travels(f) && !(order_kind_of(f[0x1F]) == FleetStandingOrderKind::Salvage && f[0x0B] == f[0x20]
            && f[0x0C] == f[0x21]) ==> fleet_year(i, f, next, planets) == quiet_year(f, planets, Seq::empty()),
        fleet_year(i, f, next, planets).7 ==> order_kind_of(f[0x1F]) == FleetStandingOrderKind::Salvage,
{
}

/// A moving fleet that reaches its target arrives. Under a move, patrol,
/// bombard, invade or blitz order (codes 1, 3, 6, 7, 8) it keeps its order
/// and speed, so the mission runs on a later tick; under any other order it
/// stops (speed 0) and holds (order 0). Either way it stands on the target.
/// A fleet that does not reach its target keeps its order and speed.
pub proof fn lemma_arrival_orders(f: Seq<u8>, next: [u8; 2])
    requires
        f.len() > 0x21,
        f[0x0A] > 0,
        !(f[0x0B] == f[0x20] && f[0x0C] == f[0x21]),
    ensures
        next@[0] == f[0x20] && next@[1] == f[0x21] ==> {
            let (g, arrived) = fleet_after_travel(f, next);
            &&& arrived
            &&& g[0x0B] == f[0x20] && g[0x0C] == f[0x21]
            &&& (f[0x1F] == 1 || f[0x1F] == 3 || f[0x1F] == 6 || f[0x1F] == 7 || f[0x1F] == 8) ==> g[0x1F]
                == f[0x1F] && g[0x0A] == f[0x0A]
            &&& !(f[0x1F] == 1 || f[0x1F] == 3 || f[0x1F] == 6 || f[0x1F] == 7 || f[0x1F] == 8) ==> g[0x1F] == 0
                && g[0x0A] == 0
        },
        !(next@[0] == f[0x20] && next@[1] == f[0x21]) ==> {
            let (g, arrived) = fleet_after_travel(f, next);
            &&& !arrived
            &&& g[0x0B] == next@[0] && g[0x0C] == next@[1]
            &&& g[0x1F] == f[0x1F] && g[0x0A] == f[0x0A]
        },
{
}

/// The progress a fleet carries to the next year reads back as the ninths
/// left over when they are a multiple of three (as for speed 3): encoding
/// `s` (0, 3 or 6) into the byte at 0x0F and decoding it in transit gives
/// `s` again. From rest, a fleet moves eight ninths of a sector per point of
/// speed, rounded down.
pub proof fn lemma_progress_round_trip(f: Seq<u8>, s: int)
    requires
        f.len() > 0x21,
        s == 0 || s == 3 || s == 6,
    ensures
        f[0x0D] != 0x80 && f[0x0F] == progress_byte(s) ==> carried_progress(f) == s,
        f[0x0D] == 0x80 ==> sectors_this_year(f) == (f[0x0A] * 8) / 9,
{
    if f[0x0D] != 0x80 && f[0x0F] == progress_byte(s) {
        assert(s == 0 || s == 3 || s == 6);
    }
}

/// Salvage into a world of the fleet's own empire pays half the purchase
/// cost of what the fleet holds (destroyers and transports 5, cruisers and
/// scouts 15, battleships 45, colony ships 20, armies 2) into the world's
/// stored goods (at most the 32-bit limit), leaves the fleet as it is and
/// removes it when that is more than nothing; anywhere else the fleet stops
/// (speed 0), holds (order 0) with its target set where it stands, and no
/// world changes.
pub proof fn lemma_salvage_effect(i: int, f: Seq<u8>, planets: Seq<Seq<u8>>, planet: Option<int>, target: [u8; 2])
    requires
        f.len() == 54,
        planet matches Some(p) ==> 0 <= p < planets.len() && planets[p].len() == 97,
    ensures
        ({
            let y = salvage_year(i, f, planets, planet, target);
            let v = (5 * le16(f, 0x2A) + 15 * le16(f, 0x28) + 45 * le16(f, 0x26) + 15 * f[0x24] + 5 * le16(f, 0x2C)
                + 20 * le16(f, 0x30) + 2 * le16(f, 0x2E)) / 2;
            &&& (planet matches Some(p) && planets[p][0x5D] == f[0x02]) ==> {
                let p = planet->0;
                &&& y.0 == f
                &&& y.1.len() == planets.len()
                &&& le32(y.1[p], 0x0A) == (if le32(planets[p], 0x0A) + v > u32::MAX { u32::MAX as int } else {
                    le32(planets[p], 0x0A) + v
                })
                &&& forall|q: int| 0 <= q < planets.len() && q != p ==> #[trigger] y.1[q] == planets[q]
                &&& y.7 == (v > 0)
            }
            &&& !(planet matches Some(p) && planets[p][0x5D] == f[0x02]) ==> {
                &&& y.0[0x0A] == 0 && y.0[0x1F] == 0 && y.0[0x20] == f[0x0B] && y.0[0x21] == f[0x0C]
                &&& y.1 == planets
                &&& !y.7
            }
        }),
{
    if let Some(p) = planet {
        if planets[p][0x5D] == f[0x02] {
            crate::records::bytes::lemma_put32_get32(
                planets[p],
                0x0A,
                sat32(le32(planets[p], 0x0A) + salvage_value(f)),
            );
        }
    }
}

} // verus!
