//! Fleets that defect from an empire fallen into lasting civil disorder.
use crate::game::CoreGameData;
use crate::maint::events::{CivilDisorderEvent, FleetDefectionEvent};
use crate::maint::movement::{fleet_has_presence, has_presence};
use crate::maint::removal::{apply_fleet_removal_remap, fleets_removed};
use crate::records::fleet::FleetRecord;
use vstd::prelude::*;

verus! {

/// Empire `e` (1-based) loses a fleet this year: its slot is player-run
/// (mode byte 0), it did not just fall into disorder, and it owns no world.
pub open spec fn defects(game: CoreGameData, disordered: Seq<CivilDisorderEvent>, e: int) -> bool {
    &&& 1 <= e <= game.player.records@.len()
    &&& game.player.records@[e - 1].raw@[0] == 0
    &&& forall|k: int| 0 <= k < disordered.len() ==> (#[trigger] disordered[k]).reporting_empire_raw != e
    &&& forall|i: int|
        0 <= i < game.planets.records@.len() ==> (#[trigger] game.planets.records@[i]).raw@[0x5D] != e
}

/// The fleet of empire `e` that defects, among the first `n`: one that still
/// holds ships or armies, with the highest fleet id, the last on ties.
pub open spec fn defecting_fleet(fleets: Seq<FleetRecord>, e: int, n: int) -> Option<int>
    decreases n,
{
    if n <= 0 {
        None
    } else {
        let prev = defecting_fleet(fleets, e, n - 1);
        let f = fleets[n - 1];
        if f.raw@[0x02] == e && has_presence(f) && match prev {
            None => true,
            Some(b) => f.raw@[0x05] >= fleets[b].raw@[0x05],
        } {
            Some(n - 1)
        } else {
            prev
        }
    }
}

/// The fleets that defect from empires 1 to `k`.
pub open spec fn defection_marks_upto(game: CoreGameData, disordered: Seq<CivilDisorderEvent>, k: int) -> Seq<
    bool,
> {
    let fleets = game.fleets.records@;
    Seq::new(
        fleets.len(),
        |i: int|
            {
                let e = fleets[i].raw@[0x02] as int;
                1 <= e <= k && defects(game, disordered, e) && defecting_fleet(fleets, e, fleets.len() as int)
                    == Some(i)
            },
    )
}

/// The empires considered: 1 to the player count, taken as a byte.
pub open spec fn defection_empire_limit(game: CoreGameData) -> int {
    (game.player.records@.len() as u8) as int
}

/// What is reported for empires 1 to `k`, in empire order.
pub open spec fn defection_events_upto(game: CoreGameData, disordered: Seq<CivilDisorderEvent>, k: int) -> Seq<
    FleetDefectionEvent,
>
    decreases k,
{
    if k <= 0 {
        Seq::empty()
    } else {
        let rest = defection_events_upto(game, disordered, k - 1);
        let fleets = game.fleets.records@;
        if defects(game, disordered, k) {
            match defecting_fleet(fleets, k, fleets.len() as int) {
                Some(i) => rest.push(
                    FleetDefectionEvent {
                        reporting_empire_raw: k as u8,
                        fleet_id: fleets[i].raw@[0x05],
                        stardate_week: None,
                    },
                ),
                None => rest,
            }
        } else {
            rest
        }
    }
}

/// The defecting fleet of empire `e` among the first `n` is one of its
/// fleets that still holds ships or armies, with a fleet id at least that
/// of every other such fleet, and no such fleet after it has the same id;
/// there is none exactly when the empire has no such fleet.
pub proof fn lemma_defecting_fleet_is_highest(fleets: Seq<FleetRecord>, e: int, n: int)
    requires
        0 <= n <= fleets.len(),
    ensures
        defecting_fleet(fleets, e, n) is None <==> forall|j: int|
            0 <= j < n ==> !((#[trigger] fleets[j]).raw@[0x02] == e && has_presence(fleets[j])),
        defecting_fleet(fleets, e, n) matches Some(i) ==> {
            &&& 0 <= i < n
            &&& fleets[i].raw@[0x02] == e
            &&& has_presence(fleets[i])
            &&& forall|j: int|
                0 <= j < n && (#[trigger] fleets[j]).raw@[0x02] == e && has_presence(fleets[j])
                    ==> fleets[j].raw@[0x05] <= fleets[i].raw@[0x05]
            &&& forall|j: int|
                i < j < n && (#[trigger] fleets[j]).raw@[0x02] == e && has_presence(fleets[j])
                    ==> fleets[j].raw@[0x05] < fleets[i].raw@[0x05]
        },
    decreases n,
{
    if n > 0 {
        lemma_defecting_fleet_is_highest(fleets, e, n - 1);
    }
}

proof fn lemma_defecting_fleet_owned(fleets: Seq<FleetRecord>, e: int, n: int)
    requires
        n <= fleets.len(),
    ensures
        defecting_fleet(fleets, e, n) matches Some(i) ==> 0 <= i < n && fleets[i].raw@[0x02] == e,
    decreases n,
{
    if n > 0 {
        lemma_defecting_fleet_owned(fleets, e, n - 1);
    }
}

fn defecting_fleet_of(fleets: &Vec<FleetRecord>, e: u8) -> (r: Option<usize>)
    ensures
        match defecting_fleet(fleets@, e as int, fleets@.len() as int) {
            Some(i) => r == Some(i as usize),
            None => r is None,
        },
{
    let mut best: Option<usize> = None;
    let mut i: usize = 0;
    while i < fleets.len()
        invariant
            i <= fleets@.len(),
            match defecting_fleet(fleets@, e as int, i as int) {
                Some(b) => best == Some(b as usize),
                None => best is None,
            },
        decreases fleets@.len() - i,
    {
        proof {
            lemma_defecting_fleet_owned(fleets@, e as int, i as int);
        }
        let f = &fleets[i];
        if f.owner_empire_raw() == e && fleet_has_presence(f) {
            let better = match best {
                None => true,
                Some(b) => f.fleet_id() >= fleets[b].fleet_id(),
            };
            if better {
                best = Some(i);
            }
        }
        i = i + 1;
    }
    best
}

fn empire_defects(game_data: &CoreGameData, disordered: &[CivilDisorderEvent], e: u8) -> (r: bool)
    requires
        1 <= e,
    ensures
        r == defects(*game_data, disordered@, e as int),
{
    let slot = (e - 1) as usize;
    if slot >= game_data.player.records.len() {
        return false;
    }
    if game_data.player.records[slot].owner_mode_raw() != 0x00 {
        return false;
    }
    let mut k: usize = 0;
    while k < disordered.len()
        invariant
            k <= disordered@.len(),
            forall|j: int| 0 <= j < k ==> (#[trigger] disordered@[j]).reporting_empire_raw != e,
        decreases disordered@.len() - k,
    {
        if disordered[k].reporting_empire_raw == e {
            return false;
        }
        k = k + 1;
    }
    let mut i: usize = 0;
    while i < game_data.planets.records.len()
        invariant
            i <= game_data.planets.records@.len(),
            forall|j: int| 0 <= j < i ==> (#[trigger] game_data.planets.records@[j]).raw@[0x5D] != e,
        decreases game_data.planets.records@.len() - i,
    {
        if game_data.planets.records[i].owner_empire_slot_raw() == e {
            return false;
        }
        i = i + 1;
    }
    true
}

/// Each player-run empire that owns no world and did not just fall into
/// disorder loses one fleet that still holds ships or armies (the highest
/// fleet id, the last on ties); the fleets are removed together and the
/// fleet ids renumbered. Returns one event per defection, in empire order.
pub fn apply_civil_disorder_fleet_defections(game_data: &mut CoreGameData, newly_disordered: &[CivilDisorderEvent]) -> (r:
    Vec<FleetDefectionEvent>)
    ensures
        r@ == defection_events_upto(*old(game_data), newly_disordered@, defection_empire_limit(*old(game_data))),
        (exists|i: int|
            0 <= i < old(game_data).fleets.records@.len() && #[trigger] defection_marks_upto(
                *old(game_data),
                newly_disordered@,
                defection_empire_limit(*old(game_data)),
            )[i]) ==> fleets_removed(
            *old(game_data),
            *final(game_data),
            defection_marks_upto(*old(game_data), newly_disordered@, defection_empire_limit(*old(game_data))),
        ),
        !(exists|i: int|
            0 <= i < old(game_data).fleets.records@.len() && #[trigger] defection_marks_upto(
                *old(game_data),
                newly_disordered@,
                defection_empire_limit(*old(game_data)),
            )[i]) ==> *final(game_data) == *old(game_data),
{
    let ghost g0 = *game_data;
    let n_fleets = game_data.fleets.records.len();
    let mut to_remove: Vec<bool> = Vec::new();
    let mut j: usize = 0;
    while j < n_fleets
        invariant
            j <= n_fleets,
            to_remove@.len() == j,
            forall|q: int| 0 <= q < j ==> !(#[trigger] to_remove@[q]),
        decreases n_fleets - j,
    {
        to_remove.push(false);
        j = j + 1;
    }
    proof {
        assert(to_remove@ =~= defection_marks_upto(g0, newly_disordered@, 0));
    }
    let top = game_data.player.records.len() as u8;
    let mut events: Vec<FleetDefectionEvent> = Vec::new();
    let mut k: u8 = 0;
    while k < top
        invariant
            k <= top,
            top as int == defection_empire_limit(g0),
            *game_data == g0,
            n_fleets == g0.fleets.records@.len(),
            to_remove@ == defection_marks_upto(g0, newly_disordered@, k as int),
            events@ == defection_events_upto(g0, newly_disordered@, k as int),
        decreases top - k,
    {
        let e = k + 1;
        if empire_defects(game_data, newly_disordered, e) {
            match defecting_fleet_of(&game_data.fleets.records, e) {
                Some(idx) => {
                    proof {
                        lemma_defecting_fleet_owned(g0.fleets.records@, e as int, n_fleets as int);
                    }
                    to_remove.set(idx, true);
                    events.push(
                        FleetDefectionEvent {
                            reporting_empire_raw: e,
                            fleet_id: game_data.fleets.records[idx].fleet_id(),
                            stardate_week: None,
                        },
                    );
                },
                None => {},
            }
        }
        proof {
            assert(to_remove@ =~= defection_marks_upto(g0, newly_disordered@, e as int));
        }
        k = e;
    }
    let mut any = false;
    let mut q: usize = 0;
    while q < n_fleets
        invariant
            q <= n_fleets == to_remove@.len(),
            any <==> exists|i: int| 0 <= i < q && #[trigger] to_remove@[i],
        decreases n_fleets - q,
    {
        if to_remove[q] {
            any = true;
        }
        q = q + 1;
    }
    if any {
        apply_fleet_removal_remap(game_data, to_remove.as_slice());
    }
    events
}

} // verus!
