//! Choosing new targets for fleets whose mission target moved.
use crate::game::CoreGameData;
use crate::maint::events::{Mission, MissionRetargetEvent};
use crate::records::base::BaseRecord;
use crate::records::fleet::{order_kind_of, FleetRecord, FleetStandingOrderKind};
use crate::records::planet::PlanetRecord;
use vstd::prelude::*;

verus! {

/// Squared distance from `from` to `c`.
pub open spec fn distance_sq(c: Seq<u8>, from: Seq<u8>) -> int {
    (c[0] - from[0]) * (c[0] - from[0]) + (c[1] - from[1]) * (c[1] - from[1])
}

/// The listed world of `empire_raw` nearest to `from` (squared distance;
/// the first listed on ties), if it has any.
pub fn nearest_owned_planet_target_from_list(
    owned_planets: &[(u8, [u8; 2])],
    empire_raw: u8,
    from: [u8; 2],
) -> (r: Option<[u8; 2]>)
    requires
        forall|i: int|
            0 <= i < owned_planets@.len() && (#[trigger] owned_planets@[i]).0 == empire_raw
                ==> distance_sq(owned_planets@[i].1@, from@) <= i16::MAX,
    ensures
        match r {
            None => forall|i: int|
                0 <= i < owned_planets@.len() ==> (#[trigger] owned_planets@[i]).0 != empire_raw,
            Some(c) => exists|i: int|
                0 <= i < owned_planets@.len() && owned_planets@[i].0 == empire_raw && c
                    == owned_planets@[i].1 && (forall|j: int|
                    0 <= j < owned_planets@.len() && (#[trigger] owned_planets@[j]).0 == empire_raw
                        ==> distance_sq(owned_planets@[j].1@, from@) >= distance_sq(
                        owned_planets@[i].1@,
                        from@,
                    )) && (forall|j: int|
                    0 <= j < i && (#[trigger] owned_planets@[j]).0 == empire_raw ==> distance_sq(
                        owned_planets@[j].1@,
                        from@,
                    ) > distance_sq(owned_planets@[i].1@, from@)),
        },
{
    let mut best: Option<usize> = None;
    let mut best_d: i16 = 0;
    let mut k: usize = 0;
    while k < owned_planets.len()
        invariant
            k <= owned_planets@.len(),
            forall|i: int|
                0 <= i < owned_planets@.len() && (#[trigger] owned_planets@[i]).0 == empire_raw
                    ==> distance_sq(owned_planets@[i].1@, from@) <= i16::MAX,
            match best {
                None => forall|j: int| 0 <= j < k ==> (#[trigger] owned_planets@[j]).0 != empire_raw,
                Some(b) => b < k && owned_planets@[b as int].0 == empire_raw && best_d == distance_sq(
                    owned_planets@[b as int].1@,
                    from@,
                ) && (forall|j: int|
                    0 <= j < k && (#[trigger] owned_planets@[j]).0 == empire_raw ==> distance_sq(
                        owned_planets@[j].1@,
                        from@,
                    ) >= best_d) && (forall|j: int|
                    0 <= j < b && (#[trigger] owned_planets@[j]).0 == empire_raw ==> distance_sq(
                        owned_planets@[j].1@,
                        from@,
                    ) > best_d),
            },
        decreases owned_planets@.len() - k,
    {
        let (owner, coords) = owned_planets[k];
        if owner == empire_raw {
            let dx = coords[0] as i16 - from[0] as i16;
            let dy = coords[1] as i16 - from[1] as i16;
            proof {
                assert(distance_sq(owned_planets@[k as int].1@, from@) <= i16::MAX);
                assert(dx * dx >= 0 && dy * dy >= 0) by (nonlinear_arith);
            }
            let d = dx * dx + dy * dy;
            match best {
                None => {
                    best = Some(k);
                    best_d = d;
                },
                Some(_) => {
                    if d < best_d {
                        best = Some(k);
                        best_d = d;
                    }
                },
            }
        }
        k = k + 1;
    }
    match best {
        None => None,
        Some(b) => Some(owned_planets[b].1),
    }
}

/// World `i` is owned by `owner` and is the nearest such world to `from`
/// by squared distance, the first one on ties.
pub open spec fn home_at(planets: Seq<PlanetRecord>, owner: u8, from: Seq<u8>, i: int) -> bool {
    &&& 0 <= i < 20
    &&& planets[i].raw@[0x5D] == owner
    &&& forall|j: int|
        0 <= j < 20 && (#[trigger] planets[j]).raw@[0x5D] == owner ==> distance_sq(planets[j].raw@.subrange(0, 2), from)
            >= distance_sq(planets[i].raw@.subrange(0, 2), from)
    &&& forall|j: int|
        0 <= j < i && (#[trigger] planets[j]).raw@[0x5D] == owner ==> distance_sq(planets[j].raw@.subrange(0, 2), from)
            > distance_sq(planets[i].raw@.subrange(0, 2), from)
}

/// Where a fleet of `owner` at `from` heads home: its nearest owned world.
pub open spec fn home_target(planets: Seq<PlanetRecord>, owner: u8, from: Seq<u8>) -> Option<[u8; 2]> {
    if exists|i: int| home_at(planets, owner, from, i) {
        let i = choose|i: int| home_at(planets, owner, from, i);
        Some([planets[i].raw@[0], planets[i].raw@[1]])
    } else {
        None
    }
}

/// A homebound fleet's record: aimed at its new home, or, without one,
/// holding where it stands with speed 0.
pub open spec fn seek_home_fleet(raw: Seq<u8>, target: Option<[u8; 2]>) -> Seq<u8> {
    match target {
        Some(c) => raw.update(0x20, c@[0]).update(0x21, c@[1]),
        None => raw.update(0x1F, 0).update(0x0A, 0).update(0x20, raw[0x0B]).update(0x21, raw[0x0C]),
    }
}

/// What is reported of homebound fleet `k`: abandoned without a home,
/// retargeted when its home moved, nothing otherwise.
pub open spec fn seek_home_event(k: int, raw: Seq<u8>, target: Option<[u8; 2]>) -> Option<MissionRetargetEvent> {
    match target {
        None => Some(
            MissionRetargetEvent::Abandoned {
                fleet_idx: k as usize,
                owner_empire_raw: raw[0x02],
                mission: Mission::SeekHome,
                previous_target_coords: [raw[0x20], raw[0x21]],
                coords: [raw[0x0B], raw[0x0C]],
            },
        ),
        Some(c) => if c@[0] != raw[0x20] || c@[1] != raw[0x21] {
            Some(
                MissionRetargetEvent::Retargeted {
                    fleet_idx: k as usize,
                    owner_empire_raw: raw[0x02],
                    mission: Mission::SeekHome,
                    previous_target_coords: [raw[0x20], raw[0x21]],
                    new_target_coords: c,
                },
            )
        } else {
            None
        },
    }
}

/// The home target of fleet record `raw`.
pub open spec fn fleet_home(planets: Seq<PlanetRecord>, raw: Seq<u8>) -> Option<[u8; 2]> {
    home_target(planets, raw[0x02], raw.subrange(0x0B, 0x0D))
}

/// The events of the first `n` fleets, in order.
pub open spec fn seek_home_events(fleets: Seq<FleetRecord>, planets: Seq<PlanetRecord>, n: int) -> Seq<
    MissionRetargetEvent,
>
    decreases n,
{
    if n <= 0 {
        Seq::empty()
    } else {
        let rest = seek_home_events(fleets, planets, n - 1);
        let raw = fleets[n - 1].raw@;
        if order_kind_of(raw[0x1F]) == FleetStandingOrderKind::SeekHome {
            match seek_home_event(n - 1, raw, fleet_home(planets, raw)) {
                Some(e) => rest.push(e),
                None => rest,
            }
        } else {
            rest
        }
    }
}

proof fn lemma_home_unique(planets: Seq<PlanetRecord>, owner: u8, from: Seq<u8>, i: int, k: int)
    requires
        home_at(planets, owner, from, i),
        home_at(planets, owner, from, k),
    ensures
        i == k,
{
    if i < k {
        assert(planets[i].raw@[0x5D] == owner);
    } else if k < i {
        assert(planets[k].raw@[0x5D] == owner);
    }
}

fn owned_world_list(game_data: &CoreGameData) -> (r: Vec<(u8, [u8; 2])>)
    ensures
        r@.len() == 20,
        forall|i: int|
            0 <= i < 20 ==> (#[trigger] r@[i]).0 == game_data.planets.records@[i].raw@[0x5D] && r@[i].1@
                == game_data.planets.records@[i].raw@.subrange(0, 2),
{
    let mut r: Vec<(u8, [u8; 2])> = Vec::new();
    let mut i: usize = 0;
    while i < 20
        invariant
            i <= 20,
            r@.len() == i,
            forall|j: int|
                0 <= j < i ==> (#[trigger] r@[j]).0 == game_data.planets.records@[j].raw@[0x5D] && r@[j].1@
                    == game_data.planets.records@[j].raw@.subrange(0, 2),
        decreases 20 - i,
    {
        let p = &game_data.planets.records[i];
        r.push((p.owner_empire_slot_raw(), p.coords_raw()));
        i = i + 1;
    }
    r
}

/// Re-aims one homebound fleet (see `seek_home_fleet` and
/// `seek_home_event`).
fn seek_home_one(
    game_data: &CoreGameData,
    owned: &Vec<(u8, [u8; 2])>,
    fleet_idx: usize,
    fleet: &mut FleetRecord,
) -> (e: Option<MissionRetargetEvent>)
    requires
        owned@.len() == 20,
        forall|i: int|
            0 <= i < 20 ==> (#[trigger] owned@[i]).0 == game_data.planets.records@[i].raw@[0x5D] && owned@[i].1@
                == game_data.planets.records@[i].raw@.subrange(0, 2),
        forall|i: int|
            0 <= i < 20 && game_data.planets.records@[i].raw@[0x5D] == old(fleet).raw@[0x02] ==> distance_sq(
                #[trigger] game_data.planets.records@[i].raw@.subrange(0, 2),
                old(fleet).raw@.subrange(0x0B, 0x0D),
            ) <= i16::MAX,
    ensures
        final(fleet).raw@ == seek_home_fleet(old(fleet).raw@, fleet_home(game_data.planets.records@, old(fleet).raw@)),
        e == seek_home_event(fleet_idx as int, old(fleet).raw@, fleet_home(game_data.planets.records@, old(fleet).raw@)),
{
    let planets = Ghost(game_data.planets.records@);
    let raw0 = Ghost(fleet.raw@);
    let previous = fleet.standing_order_target_coords_raw();
    let current = fleet.current_location_coords_raw();
    let owner = fleet.owner_empire_raw();
    proof {
        assert forall|i: int|
            0 <= i < owned@.len() && (#[trigger] owned@[i]).0 == owner ==> distance_sq(owned@[i].1@, current@)
                <= i16::MAX by {
            if 0 <= i < owned@.len() && owned@[i].0 == owner {
                assert(game_data.planets.records@[i].raw@[0x5D] == owner);
            }
        }
    }
    let target = nearest_owned_planet_target_from_list(owned, owner, current);
    proof {
        let from = raw0@.subrange(0x0B, 0x0D);
        assert(current@ == from);
        match target {
            Some(c) => {
                let i = choose|i: int|
                    0 <= i < owned@.len() && owned@[i].0 == owner && c == owned@[i].1 && (forall|j: int|
                        0 <= j < owned@.len() && (#[trigger] owned@[j]).0 == owner ==> distance_sq(
                            owned@[j].1@,
                            current@,
                        ) >= distance_sq(owned@[i].1@, current@)) && (forall|j: int|
                        0 <= j < i && (#[trigger] owned@[j]).0 == owner ==> distance_sq(owned@[j].1@, current@)
                            > distance_sq(owned@[i].1@, current@));
                assert forall|j: int|
                    0 <= j < 20 && (#[trigger] planets@[j]).raw@[0x5D] == owner implies distance_sq(
                        planets@[j].raw@.subrange(0, 2),
                        from,
                    ) >= distance_sq(planets@[i].raw@.subrange(0, 2), from) by {
                    assert(owned@[j].0 == owner);
                }
                assert forall|j: int|
                    0 <= j < i && (#[trigger] planets@[j]).raw@[0x5D] == owner implies distance_sq(
                        planets@[j].raw@.subrange(0, 2),
                        from,
                    ) > distance_sq(planets@[i].raw@.subrange(0, 2), from) by {
                    assert(owned@[j].0 == owner);
                }
                assert(home_at(planets@, owner, from, i));
                let k = choose|k: int| home_at(planets@, owner, from, k);
                lemma_home_unique(planets@, owner, from, i, k);
                assert(c =~= [planets@[i].raw@[0], planets@[i].raw@[1]]);
            },
            None => {
                if exists|k: int| home_at(planets@, owner, from, k) {
                    let k = choose|k: int| home_at(planets@, owner, from, k);
                    assert(owned@[k].0 == owner);
                }
            },
        }
    }
    match target {
        None => {
            fleet.set_standing_order_kind(FleetStandingOrderKind::HoldPosition);
            fleet.set_current_speed(0);
            fleet.set_standing_order_target_coords_raw(current);
            assert(fleet.raw@ =~= seek_home_fleet(raw0@, None));
            let e = MissionRetargetEvent::Abandoned {
                fleet_idx,
                owner_empire_raw: owner,
                mission: Mission::SeekHome,
                previous_target_coords: previous,
                coords: current,
            };
            assert(previous =~= [raw0@[0x20], raw0@[0x21]]);
            assert(current =~= [raw0@[0x0B], raw0@[0x0C]]);
            Some(e)
        },
        Some(c) => {
            if c[0] != previous[0] || c[1] != previous[1] {
                fleet.set_standing_order_target_coords_raw(c);
                assert(fleet.raw@ =~= seek_home_fleet(raw0@, Some(c)));
                assert(previous =~= [raw0@[0x20], raw0@[0x21]]);
                Some(
                    MissionRetargetEvent::Retargeted {
                        fleet_idx,
                        owner_empire_raw: owner,
                        mission: Mission::SeekHome,
                        previous_target_coords: previous,
                        new_target_coords: c,
                    },
                )
            } else {
                assert(fleet.raw@ =~= seek_home_fleet(raw0@, Some(c)));
                None
            }
        },
    }
}

/// Re-aims every homebound fleet at its empire's nearest world (first on
/// ties); a fleet whose empire owns no world holds where it stands. Returns
/// what was abandoned or retargeted, fleet by fleet.
pub fn refresh_seek_home_targets(game_data: &mut CoreGameData) -> (r: Vec<MissionRetargetEvent>)
    requires
        forall|k: int, i: int|
            0 <= k < old(game_data).fleets.records@.len() && 0 <= i < 20
                && old(game_data).planets.records@[i].raw@[0x5D] == old(game_data).fleets.records@[k].raw@[0x02]
                ==> distance_sq(
                #[trigger] old(game_data).planets.records@[i].raw@.subrange(0, 2),
                #[trigger] old(game_data).fleets.records@[k].raw@.subrange(0x0B, 0x0D),
            ) <= i16::MAX,
    ensures
        final(game_data).fleets.records@.len() == old(game_data).fleets.records@.len(),
        forall|k: int|
            0 <= k < old(game_data).fleets.records@.len() ==> (#[trigger] final(game_data).fleets.records@[k]).raw@
                == if order_kind_of(old(game_data).fleets.records@[k].raw@[0x1F]) == FleetStandingOrderKind::SeekHome {
                seek_home_fleet(
                    old(game_data).fleets.records@[k].raw@,
                    fleet_home(old(game_data).planets.records@, old(game_data).fleets.records@[k].raw@),
                )
            } else {
                old(game_data).fleets.records@[k].raw@
            },
        r@ == seek_home_events(
            old(game_data).fleets.records@,
            old(game_data).planets.records@,
            old(game_data).fleets.records@.len() as int,
        ),
        final(game_data).player == old(game_data).player,
        final(game_data).planets == old(game_data).planets,
        final(game_data).bases == old(game_data).bases,
        final(game_data).ipbm == old(game_data).ipbm,
        final(game_data).setup == old(game_data).setup,
        final(game_data).conquest == old(game_data).conquest,
{
    let owned = owned_world_list(game_data);
    let ghost start = game_data.fleets.records@;
    let mut events: Vec<MissionRetargetEvent> = Vec::new();
    let mut k: usize = 0;
    while k < game_data.fleets.records.len()
        invariant
            k <= start.len(),
            game_data.fleets.records@.len() == start.len(),
            owned@.len() == 20,
            forall|i: int|
                0 <= i < 20 ==> (#[trigger] owned@[i]).0 == game_data.planets.records@[i].raw@[0x5D] && owned@[i].1@
                    == game_data.planets.records@[i].raw@.subrange(0, 2),
            forall|q: int, i: int|
                0 <= q < start.len() && 0 <= i < 20 && game_data.planets.records@[i].raw@[0x5D] == start[q].raw@[0x02]
                    ==> distance_sq(
                    #[trigger] game_data.planets.records@[i].raw@.subrange(0, 2),
                    #[trigger] start[q].raw@.subrange(0x0B, 0x0D),
                ) <= i16::MAX,
            forall|q: int|
                0 <= q < start.len() ==> (#[trigger] game_data.fleets.records@[q]).raw@ == if q < k && order_kind_of(
                    start[q].raw@[0x1F],
                ) == FleetStandingOrderKind::SeekHome {
                    seek_home_fleet(start[q].raw@, fleet_home(game_data.planets.records@, start[q].raw@))
                } else {
                    start[q].raw@
                },
            events@ == seek_home_events(start, game_data.planets.records@, k as int),
            game_data.player == old(game_data).player,
            game_data.planets == old(game_data).planets,
            game_data.bases == old(game_data).bases,
            game_data.ipbm == old(game_data).ipbm,
            game_data.setup == old(game_data).setup,
            game_data.conquest == old(game_data).conquest,
            start == old(game_data).fleets.records@,
        decreases start.len() - k,
    {
        let mut fleet = FleetRecord { raw: game_data.fleets.records[k].raw };
        let homebound = match fleet.standing_order_kind() {
            FleetStandingOrderKind::SeekHome => true,
            _ => false,
        };
        if homebound {
            proof {
                assert(fleet.raw@ == start[k as int].raw@);
                assert forall|i: int|
                    0 <= i < 20 && game_data.planets.records@[i].raw@[0x5D] == fleet.raw@[0x02] implies distance_sq(
                        #[trigger] game_data.planets.records@[i].raw@.subrange(0, 2),
                        fleet.raw@.subrange(0x0B, 0x0D),
                    ) <= i16::MAX by {
                    assert(start[k as int].raw@.subrange(0x0B, 0x0D) == fleet.raw@.subrange(0x0B, 0x0D));
                }
            }
            let e = seek_home_one(game_data, &owned, k, &mut fleet);
            game_data.fleets.records.set(k, fleet);
            match e {
                Some(ev) => {
                    events.push(ev);
                },
                None => {},
            }
        }
        k = k + 1;
    }
    events
}

/// Where the starbase `base_id` of `owner` stands, by the first `n` base
/// records: the last active record with that owner and id (a base with id 0
/// or owner 0 is not active).
pub open spec fn guarded_base_at(bases: Seq<BaseRecord>, owner: u8, base_id: u8, n: int) -> Option<[u8; 2]>
    decreases n,
{
    if n <= 0 {
        None
    } else {
        let raw = bases[n - 1].raw@;
        if raw[0x04] != 0 && raw[0x22] != 0 && raw[0x22] == owner && raw[0x04] == base_id {
            Some([raw[0x0B], raw[0x0C]])
        } else {
            guarded_base_at(bases, owner, base_id, n - 1)
        }
    }
}

/// The target of guard fleet record `raw`: `None` when its guard index or
/// enable byte is 0 or its starbase is gone.
pub open spec fn guard_target(bases: Seq<BaseRecord>, raw: Seq<u8>) -> Option<[u8; 2]> {
    if raw[0x22] == 0 || raw[0x23] == 0 {
        None
    } else {
        guarded_base_at(bases, raw[0x02], raw[0x22], bases.len() as int)
    }
}

/// A guard fleet's record: aimed at its starbase, or, without one, holding
/// where it stands with speed 0.
pub open spec fn guard_fleet(raw: Seq<u8>, target: Option<[u8; 2]>) -> Seq<u8> {
    match target {
        Some(c) => if c@[0] != raw[0x20] || c@[1] != raw[0x21] {
            raw.update(0x20, c@[0]).update(0x21, c@[1])
        } else {
            raw
        },
        None => raw.update(0x1F, 0).update(0x0A, 0).update(0x20, raw[0x0B]).update(0x21, raw[0x0C]),
    }
}

/// What is reported of guard fleet `k`: abandoned without a starbase,
/// retargeted when its starbase moved, nothing otherwise.
pub open spec fn guard_event(k: int, raw: Seq<u8>, target: Option<[u8; 2]>) -> Option<MissionRetargetEvent> {
    match target {
        None => Some(
            MissionRetargetEvent::Abandoned {
                fleet_idx: k as usize,
                owner_empire_raw: raw[0x02],
                mission: Mission::GuardStarbase,
                previous_target_coords: [raw[0x20], raw[0x21]],
                coords: [raw[0x0B], raw[0x0C]],
            },
        ),
        Some(c) => if c@[0] != raw[0x20] || c@[1] != raw[0x21] {
            Some(
                MissionRetargetEvent::Retargeted {
                    fleet_idx: k as usize,
                    owner_empire_raw: raw[0x02],
                    mission: Mission::GuardStarbase,
                    previous_target_coords: [raw[0x20], raw[0x21]],
                    new_target_coords: c,
                },
            )
        } else {
            None
        },
    }
}

/// The guard events of the first `n` fleets, in order.
pub open spec fn guard_events(fleets: Seq<FleetRecord>, bases: Seq<BaseRecord>, n: int) -> Seq<MissionRetargetEvent>
    decreases n,
{
    if n <= 0 {
        Seq::empty()
    } else {
        let rest = guard_events(fleets, bases, n - 1);
        let raw = fleets[n - 1].raw@;
        if order_kind_of(raw[0x1F]) == FleetStandingOrderKind::GuardStarbase {
            match guard_event(n - 1, raw, guard_target(bases, raw)) {
                Some(e) => rest.push(e),
                None => rest,
            }
        } else {
            rest
        }
    }
}

fn guarded_base_of(bases: &Vec<BaseRecord>, owner: u8, base_id: u8) -> (r: Option<[u8; 2]>)
    ensures
        r == guarded_base_at(bases@, owner, base_id, bases@.len() as int),
{
    let mut i: usize = bases.len();
    while i > 0
        invariant
            i <= bases@.len(),
            forall|j: int|
                i <= j < bases@.len() ==> !({
                    let raw = (#[trigger] bases@[j]).raw@;
                    raw[0x04] != 0 && raw[0x22] != 0 && raw[0x22] == owner && raw[0x04] == base_id
                }),
            guarded_base_at(bases@, owner, base_id, bases@.len() as int) == guarded_base_at(
                bases@,
                owner,
                base_id,
                i as int,
            ),
        decreases i,
    {
        let b = &bases[i - 1];
        let id = b.base_id_raw();
        let who = b.owner_empire_raw();
        if id != 0 && who != 0 && who == owner && id == base_id {
            let c = b.coords_raw();
            assert(c =~= [b.raw@[0x0B], b.raw@[0x0C]]);
            return Some(c);
        }
        i = i - 1;
    }
    None
}

/// Re-aims one guard fleet (see `guard_fleet` and `guard_event`).
fn guard_one(bases: &Vec<BaseRecord>, fleet_idx: usize, fleet: &mut FleetRecord) -> (e: Option<MissionRetargetEvent>)
    ensures
        final(fleet).raw@ == guard_fleet(old(fleet).raw@, guard_target(bases@, old(fleet).raw@)),
        e == guard_event(fleet_idx as int, old(fleet).raw@, guard_target(bases@, old(fleet).raw@)),
{
    let raw0 = Ghost(fleet.raw@);
    let previous = fleet.standing_order_target_coords_raw();
    let current = fleet.current_location_coords_raw();
    let owner = fleet.owner_empire_raw();
    let base_id = fleet.guard_starbase_index_raw();
    let target = if base_id == 0 || fleet.guard_starbase_enable_raw() == 0 {
        None
    } else {
        guarded_base_of(bases, owner, base_id)
    };
    assert(previous =~= [raw0@[0x20], raw0@[0x21]]);
    assert(current =~= [raw0@[0x0B], raw0@[0x0C]]);
    match target {
        None => {
            fleet.set_standing_order_kind(FleetStandingOrderKind::HoldPosition);
            fleet.set_current_speed(0);
            fleet.set_standing_order_target_coords_raw(current);
            assert(fleet.raw@ =~= guard_fleet(raw0@, None));
            Some(
                MissionRetargetEvent::Abandoned {
                    fleet_idx,
                    owner_empire_raw: owner,
                    mission: Mission::GuardStarbase,
                    previous_target_coords: previous,
                    coords: current,
                },
            )
        },
        Some(c) => {
            if c[0] != previous[0] || c[1] != previous[1] {
                fleet.set_standing_order_target_coords_raw(c);
                assert(fleet.raw@ =~= guard_fleet(raw0@, Some(c)));
                Some(
                    MissionRetargetEvent::Retargeted {
                        fleet_idx,
                        owner_empire_raw: owner,
                        mission: Mission::GuardStarbase,
                        previous_target_coords: previous,
                        new_target_coords: c,
                    },
                )
            } else {
                None
            }
        },
    }
}

/// Re-aims every starbase-guard fleet at the starbase it guards (by owner
/// and base id, the last matching active record); a fleet whose guard order
/// is disabled or whose starbase is gone holds where it stands. Returns what
/// was abandoned or retargeted, fleet by fleet.
pub fn refresh_guard_starbase_targets(game_data: &mut CoreGameData) -> (r: Vec<MissionRetargetEvent>)
    ensures
        final(game_data).fleets.records@.len() == old(game_data).fleets.records@.len(),
        forall|k: int|
            0 <= k < old(game_data).fleets.records@.len() ==> (#[trigger] final(game_data).fleets.records@[k]).raw@
                == if order_kind_of(old(game_data).fleets.records@[k].raw@[0x1F])
                == FleetStandingOrderKind::GuardStarbase {
                guard_fleet(
                    old(game_data).fleets.records@[k].raw@,
                    guard_target(old(game_data).bases.records@, old(game_data).fleets.records@[k].raw@),
                )
            } else {
                old(game_data).fleets.records@[k].raw@
            },
        r@ == guard_events(
            old(game_data).fleets.records@,
            old(game_data).bases.records@,
            old(game_data).fleets.records@.len() as int,
        ),
        final(game_data).player == old(game_data).player,
        final(game_data).planets == old(game_data).planets,
        final(game_data).bases == old(game_data).bases,
        final(game_data).ipbm == old(game_data).ipbm,
        final(game_data).setup == old(game_data).setup,
        final(game_data).conquest == old(game_data).conquest,
{
    let ghost start = game_data.fleets.records@;
    let mut events: Vec<MissionRetargetEvent> = Vec::new();
    let mut k: usize = 0;
    while k < game_data.fleets.records.len()
        invariant
            k <= start.len(),
            game_data.fleets.records@.len() == start.len(),
            forall|q: int|
                0 <= q < start.len() ==> (#[trigger] game_data.fleets.records@[q]).raw@ == if q < k && order_kind_of(
                    start[q].raw@[0x1F],
                ) == FleetStandingOrderKind::GuardStarbase {
                    guard_fleet(start[q].raw@, guard_target(game_data.bases.records@, start[q].raw@))
                } else {
                    start[q].raw@
                },
            events@ == guard_events(start, game_data.bases.records@, k as int),
            game_data.player == old(game_data).player,
            game_data.planets == old(game_data).planets,
            game_data.bases == old(game_data).bases,
            game_data.ipbm == old(game_data).ipbm,
            game_data.setup == old(game_data).setup,
            game_data.conquest == old(game_data).conquest,
            start == old(game_data).fleets.records@,
        decreases start.len() - k,
    {
        let mut fleet = FleetRecord { raw: game_data.fleets.records[k].raw };
        let guarding = match fleet.standing_order_kind() {
            FleetStandingOrderKind::GuardStarbase => true,
            _ => false,
        };
        if guarding {
            let e = guard_one(&game_data.bases.records, k, &mut fleet);
            game_data.fleets.records.set(k, fleet);
            match e {
                Some(ev) => events.push(ev),
                None => {},
            }
        }
        k = k + 1;
    }
    events
}

/// A homebound fleet of `owner` at `from` heads for a world its empire
/// owns, no farther (by straight-line distance) than any other such world
/// and the first of the nearest in record order; it has no home exactly
/// when its empire owns none of the 20 worlds.
pub proof fn lemma_home_is_nearest_owned(planets: Seq<PlanetRecord>, owner: u8, from: Seq<u8>)
    requires
        planets.len() == 20,
        from.len() == 2,
        forall|i: int| 0 <= i < 20 ==> (#[trigger] planets[i]).raw@.len() > 0x5D,
    ensures
        home_target(planets, owner, from) is None <==> forall|j: int|
            0 <= j < 20 ==> (#[trigger] planets[j]).raw@[0x5D] != owner,
        home_target(planets, owner, from) matches Some(c) ==> exists|i: int|
            0 <= i < 20 && (#[trigger] planets[i]).raw@[0x5D] == owner && c@[0] == planets[i].raw@[0] && c@[1]
                == planets[i].raw@[1] && (forall|j: int|
                0 <= j < 20 && (#[trigger] planets[j]).raw@[0x5D] == owner ==> (planets[j].raw@[0] - from[0]) * (
                planets[j].raw@[0] - from[0]) + (planets[j].raw@[1] - from[1]) * (planets[j].raw@[1] - from[1]) >= (
                planets[i].raw@[0] - from[0]) * (planets[i].raw@[0] - from[0]) + (planets[i].raw@[1] - from[1]) * (
                planets[i].raw@[1] - from[1])) && (forall|j: int|
                0 <= j < i && (#[trigger] planets[j]).raw@[0x5D] == owner ==> (planets[j].raw@[0] - from[0]) * (
                planets[j].raw@[0] - from[0]) + (planets[j].raw@[1] - from[1]) * (planets[j].raw@[1] - from[1]) > (
                planets[i].raw@[0] - from[0]) * (planets[i].raw@[0] - from[0]) + (planets[i].raw@[1] - from[1]) * (
                planets[i].raw@[1] - from[1])),
{
    if exists|j: int| 0 <= j < 20 && (#[trigger] planets[j]).raw@[0x5D] == owner {
        if !(exists|i: int| home_at(planets, owner, from, i)) {
            lemma_some_home(planets, owner, from, 20);
        }
    }
    if home_target(planets, owner, from) is Some {
        let i = choose|i: int| home_at(planets, owner, from, i);
        assert(planets[i].raw@[0x5D] == owner);
    }
}

/// The first of the nearest worlds of `owner` among the first `k`, or -1.
spec fn nearest_upto(planets: Seq<PlanetRecord>, owner: u8, from: Seq<u8>, k: int) -> int
    decreases k,
{
    if k <= 0 {
        -1
    } else {
        let b = nearest_upto(planets, owner, from, k - 1);
        if planets[k - 1].raw@[0x5D] == owner && (b == -1 || distance_sq(planets[k - 1].raw@.subrange(0, 2), from)
            < distance_sq(planets[b].raw@.subrange(0, 2), from)) {
            k - 1
        } else {
            b
        }
    }
}

proof fn lemma_nearest_upto(planets: Seq<PlanetRecord>, owner: u8, from: Seq<u8>, k: int)
    requires
        0 <= k <= 20,
    ensures
        ({
            let b = nearest_upto(planets, owner, from, k);
            &&& -1 <= b < k
            &&& b == -1 ==> forall|j: int| 0 <= j < k ==> (#[trigger] planets[j]).raw@[0x5D] != owner
            &&& b >= 0 ==> planets[b].raw@[0x5D] == owner && (forall|j: int|
                0 <= j < k && (#[trigger] planets[j]).raw@[0x5D] == owner ==> distance_sq(
                    planets[j].raw@.subrange(0, 2),
                    from,
                ) >= distance_sq(planets[b].raw@.subrange(0, 2), from)) && (forall|j: int|
                0 <= j < b && (#[trigger] planets[j]).raw@[0x5D] == owner ==> distance_sq(
                    planets[j].raw@.subrange(0, 2),
                    from,
                ) > distance_sq(planets[b].raw@.subrange(0, 2), from))
        }),
    decreases k,
{
    if k > 0 {
        lemma_nearest_upto(planets, owner, from, k - 1);
    }
}

proof fn lemma_some_home(planets: Seq<PlanetRecord>, owner: u8, from: Seq<u8>, n: int)
    requires
        n == 20,
        planets.len() == 20,
        exists|j: int| 0 <= j < 20 && (#[trigger] planets[j]).raw@[0x5D] == owner,
    ensures
        exists|i: int| home_at(planets, owner, from, i),
{
    lemma_nearest_upto(planets, owner, from, 20);
    let b = nearest_upto(planets, owner, from, 20);
    let j0 = choose|j: int| 0 <= j < 20 && (#[trigger] planets[j]).raw@[0x5D] == owner;
    assert(b != -1);
    assert(home_at(planets, owner, from, b));
}

/// The starbase a guard fleet of `owner` follows by base id `base_id` is
/// an active record (base id and owner not 0) with that owner and id, and
/// no later record matches; there is none exactly when no record matches.
pub proof fn lemma_guarded_base_is_last_match(bases: Seq<BaseRecord>, owner: u8, base_id: u8, n: int)
    requires
        0 <= n <= bases.len(),
    ensures
        guarded_base_at(bases, owner, base_id, n) is None <==> forall|i: int|
            0 <= i < n ==> !({
                let raw = (#[trigger] bases[i]).raw@;
                raw[0x04] != 0 && raw[0x22] != 0 && raw[0x22] == owner && raw[0x04] == base_id
            }),
        guarded_base_at(bases, owner, base_id, n) matches Some(c) ==> exists|i: int|
            0 <= i < n && {
                let raw = (#[trigger] bases[i]).raw@;
                &&& raw[0x04] != 0 && raw[0x22] != 0 && raw[0x22] == owner && raw[0x04] == base_id
                &&& c@[0] == raw[0x0B] && c@[1] == raw[0x0C]
                &&& forall|j: int|
                    i < j < n ==> !({
                        let r2 = (#[trigger] bases[j]).raw@;
                        r2[0x04] != 0 && r2[0x22] != 0 && r2[0x22] == owner && r2[0x04] == base_id
                    })
            },
    decreases n,
{
    if n > 0 {
        lemma_guarded_base_is_last_match(bases, owner, base_id, n - 1);
        let raw = bases[n - 1].raw@;
        if raw[0x04] != 0 && raw[0x22] != 0 && raw[0x22] == owner && raw[0x04] == base_id {
            let c = guarded_base_at(bases, owner, base_id, n)->0;
            assert(c@[0] == raw[0x0B] && c@[1] == raw[0x0C]);
        } else if guarded_base_at(bases, owner, base_id, n - 1) is Some {
            let i = choose|i: int|
                0 <= i < n - 1 && {
                    let raw = (#[trigger] bases[i]).raw@;
                    &&& raw[0x04] != 0 && raw[0x22] != 0 && raw[0x22] == owner && raw[0x04] == base_id
                    &&& guarded_base_at(bases, owner, base_id, n - 1)->0@[0] == raw[0x0B]
                        && guarded_base_at(bases, owner, base_id, n - 1)->0@[1] == raw[0x0C]
                    &&& forall|j: int|
                        i < j < n - 1 ==> !({
                            let r2 = (#[trigger] bases[j]).raw@;
                            r2[0x04] != 0 && r2[0x22] != 0 && r2[0x22] == owner && r2[0x04] == base_id
                        })
                };
            assert(bases[i] == bases[i]);
        }
    }
}

} // verus!
