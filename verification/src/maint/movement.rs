//! Fleet movement bookkeeping: the events movement produces and keeping
//! them pointed at the right fleets when fleets are removed.
use crate::maint::events::{DiplomaticEscalationEvent, MissionEvent, PlanetIntelEvent, SalvageResolvedEvent};
use crate::pathfinding::PlannedRoute;
use crate::records::bytes::le16;
use crate::maint::combat::held_in_place;
use crate::records::fleet::{FleetRecord, FleetStandingOrderKind};
use vstd::prelude::*;

verus! {

/// A fleet completed a colonization order.
#[derive(Debug, Clone, Copy, PartialEq, Eq)]
pub struct ColonizationEvent {
    /// Index of the arriving fleet in `FLEETS.DAT`.
    pub fleet_idx: usize,
    /// Where the colony was founded.
    pub coords: [u8; 2],
    /// The colonizing empire.
    pub owner_empire: u8,
}

/// What fleet movement reports.
#[derive(Debug, Clone, Default)]
pub struct MovementEvents {
    pub colonization_events: Vec<ColonizationEvent>,
    pub planet_intel_events: Vec<PlanetIntelEvent>,
    pub mission_events: Vec<MissionEvent>,
    pub diplomatic_escalation_events: Vec<DiplomaticEscalationEvent>,
    pub salvage_events: Vec<SalvageResolvedEvent>,
}

/// Where a fleet moving `int_move` sectors this turn goes by its planned
/// route: the route's sector `int_move` steps along (its last sector when the
/// route is shorter), taken only for a positive move, a route of more than
/// two sectors, and a sector other than the target; `None` otherwise, when
/// the fleet flies straight at its target instead.
pub open spec fn route_step(route: Option<PlannedRoute>, target: [u8; 2], int_move: int) -> Option<[u8; 2]> {
    if int_move <= 0 {
        None
    } else {
        match route {
            None => None,
            Some(rt) => {
                let n = rt.steps@.len();
                if n > 2 {
                    let c = rt.steps@[if int_move < n - 1 { int_move } else { n - 1 }].coords;
                    if c@ != target@ {
                        Some(c)
                    } else {
                        None
                    }
                } else {
                    None
                }
            },
        }
    }
}

/// The sector this turn's move reaches along the planned route, when the
/// move follows the route (see `route_step`).
pub fn route_step_for_move(route: Option<&PlannedRoute>, target: [u8; 2], int_move: i32) -> (r: Option<[u8; 2]>)
    ensures
        r == route_step(
            match route {
                Some(rt) => Some(*rt),
                None => None,
            },
            target,
            int_move as int,
        ),
{
    if int_move <= 0 {
        return None;
    }
    match route {
        None => None,
        Some(rt) => {
            let n = rt.steps.len();
            if n > 2 {
                let m = int_move as usize;
                let idx = if m < n - 1 {
                    m
                } else {
                    n - 1
                };
                let c = rt.steps[idx].coords;
                if c[0] == target[0] && c[1] == target[1] {
                    assert(c@ =~= target@);
                    None
                } else {
                    Some(c)
                }
            } else {
                None
            }
        },
    }
}

/// A fleet record holds some ship or army.
pub open spec fn has_presence(f: FleetRecord) -> bool {
    f.raw@[0x24] > 0 || le16(f.raw@, 0x26) > 0 || le16(f.raw@, 0x28) > 0 || le16(f.raw@, 0x2A) > 0
        || le16(f.raw@, 0x2C) > 0 || le16(f.raw@, 0x2E) > 0 || le16(f.raw@, 0x30) > 0
}

/// Whether the fleet still holds any ship or army.
pub fn fleet_has_presence(fleet: &FleetRecord) -> (r: bool)
    ensures
        r == has_presence(*fleet),
{
    fleet.scout_count() > 0 || fleet.battleship_count() > 0 || fleet.cruiser_count() > 0
        || fleet.destroyer_count() > 0 || fleet.troop_transport_count() > 0 || fleet.army_count() > 0
        || fleet.etac_count() > 0
}

/// Number of removed fleets among the first `i`.
pub open spec fn removed_before(to_remove: Seq<bool>, i: int) -> nat
    decreases i,
{
    if i <= 0 {
        0
    } else {
        removed_before(to_remove, i - 1) + if to_remove[i - 1] {
            1nat
        } else {
            0nat
        }
    }
}

/// Where fleet `idx` ends up once the marked fleets are removed: `None` if it
/// is removed itself, else its index less the removed fleets before it
/// (indices past the list stay).
pub open spec fn remapped_index(to_remove: Seq<bool>, idx: int) -> Option<int> {
    if idx < to_remove.len() && to_remove[idx] {
        None
    } else if idx < to_remove.len() {
        Some(idx - removed_before(to_remove, idx))
    } else {
        Some(idx)
    }
}

/// Colonization events of surviving fleets, renumbered, in order.
pub open spec fn remapped_colonizations(events: Seq<ColonizationEvent>, to_remove: Seq<bool>) -> Seq<
    ColonizationEvent,
>
    decreases events.len(),
{
    if events.len() == 0 {
        Seq::empty()
    } else {
        let e = events.last();
        remapped_colonizations(events.drop_last(), to_remove) + match remapped_index(
            to_remove,
            e.fleet_idx as int,
        ) {
            Some(n) => seq![ColonizationEvent { fleet_idx: n as usize, ..e }],
            None => Seq::empty(),
        }
    }
}

/// Mission events of surviving fleets, renumbered, in order.
pub open spec fn remapped_missions(events: Seq<MissionEvent>, to_remove: Seq<bool>) -> Seq<MissionEvent>
    decreases events.len(),
{
    if events.len() == 0 {
        Seq::empty()
    } else {
        let e = events.last();
        remapped_missions(events.drop_last(), to_remove) + match remapped_index(
            to_remove,
            e.fleet_idx as int,
        ) {
            Some(n) => seq![MissionEvent { fleet_idx: n as usize, ..e }],
            None => Seq::empty(),
        }
    }
}

pub(crate) proof fn lemma_removed_before_bound(to_remove: Seq<bool>, i: int)
    requires
        0 <= i <= to_remove.len(),
    ensures
        removed_before(to_remove, i) <= i,
    decreases i,
{
    if i > 0 {
        lemma_removed_before_bound(to_remove, i - 1);
    }
}

/// The items not marked for removal, in their order.
pub open spec fn surviving<A>(items: Seq<A>, to_remove: Seq<bool>) -> Seq<A>
    decreases items.len(),
{
    if items.len() == 0 {
        Seq::empty()
    } else {
        surviving(items.drop_last(), to_remove) + if to_remove[items.len() - 1] {
            Seq::empty()
        } else {
            seq![items.last()]
        }
    }
}

/// Once the marked fleets are taken out of the list, the renumbered index of
/// a surviving fleet points at that same fleet.
pub proof fn lemma_remapped_index_finds_fleet<A>(items: Seq<A>, to_remove: Seq<bool>, idx: int)
    requires
        items.len() == to_remove.len(),
        0 <= idx < items.len(),
        !to_remove[idx],
    ensures
        remapped_index(to_remove, idx) matches Some(n) && 0 <= n < surviving(items, to_remove).len()
            && surviving(items, to_remove)[n] == items[idx],
{
    lemma_surviving_at(items, to_remove, idx);
}

pub(crate) proof fn lemma_surviving_len<A>(items: Seq<A>, to_remove: Seq<bool>)
    requires
        items.len() <= to_remove.len(),
    ensures
        surviving(items, to_remove).len() == items.len() - removed_before(to_remove, items.len() as int),
    decreases items.len(),
{
    if items.len() > 0 {
        lemma_surviving_len(items.drop_last(), to_remove);
    }
}

pub(crate) proof fn lemma_surviving_at<A>(items: Seq<A>, to_remove: Seq<bool>, idx: int)
    requires
        items.len() <= to_remove.len(),
        0 <= idx < items.len(),
        !to_remove[idx],
    ensures
        0 <= idx - removed_before(to_remove, idx) < surviving(items, to_remove).len(),
        surviving(items, to_remove)[idx - removed_before(to_remove, idx)] == items[idx],
    decreases items.len(),
{
    let n = items.len() - 1;
    lemma_surviving_len(items.drop_last(), to_remove);
    lemma_removed_before_bound(to_remove, idx);
    if idx < n {
        lemma_surviving_at(items.drop_last(), to_remove, idx);
    }
}

/// Counts of removed fleets before each index.
pub(crate) fn removed_counts(to_remove: &[bool]) -> (r: Vec<usize>)
    ensures
        r@.len() == to_remove@.len(),
        forall|i: int| 0 <= i < r@.len() ==> #[trigger] r@[i] == removed_before(to_remove@, i),
{
    let mut r: Vec<usize> = Vec::new();
    let mut removed: usize = 0;
    let mut i: usize = 0;
    while i < to_remove.len()
        invariant
            i <= to_remove@.len(),
            r@.len() == i,
            removed == removed_before(to_remove@, i as int),
            removed <= i,
            forall|j: int| 0 <= j < i ==> #[trigger] r@[j] == removed_before(to_remove@, j),
        decreases to_remove@.len() - i,
    {
        r.push(removed);
        if to_remove[i] {
            removed = removed + 1;
        }
        i = i + 1;
    }
    r
}

fn remap_index(to_remove: &[bool], counts: &Vec<usize>, idx: usize) -> (r: Option<usize>)
    requires
        counts@.len() == to_remove@.len(),
        forall|i: int| 0 <= i < counts@.len() ==> #[trigger] counts@[i] == removed_before(to_remove@, i),
    ensures
        match remapped_index(to_remove@, idx as int) {
            Some(n) => r == Some(n as usize),
            None => r is None,
        },
{
    if idx < to_remove.len() && to_remove[idx] {
        None
    } else if idx < to_remove.len() {
        proof {
            lemma_removed_before_bound(to_remove@, idx as int);
        }
        Some(idx - counts[idx])
    } else {
        Some(idx)
    }
}

/// After fleets marked in `to_remove` are taken out of `FLEETS.DAT`: drops
/// the colonization and mission events of removed fleets and renumbers the
/// others' fleet indices, keeping their order.
pub fn remap_movement_event_fleet_indices_after_removal(
    movement_events: &mut MovementEvents,
    to_remove: &[bool],
)
    ensures
        final(movement_events).colonization_events@ == remapped_colonizations(
            old(movement_events).colonization_events@,
            to_remove@,
        ),
        final(movement_events).mission_events@ == remapped_missions(
            old(movement_events).mission_events@,
            to_remove@,
        ),
        final(movement_events).planet_intel_events == old(movement_events).planet_intel_events,
        final(movement_events).diplomatic_escalation_events == old(
            movement_events,
        ).diplomatic_escalation_events,
        final(movement_events).salvage_events == old(movement_events).salvage_events,
{
    let counts = removed_counts(to_remove);
    let mut colonizations: Vec<ColonizationEvent> = Vec::new();
    let mut i: usize = 0;
    while i < movement_events.colonization_events.len()
        invariant
            i <= movement_events.colonization_events@.len(),
            counts@.len() == to_remove@.len(),
            forall|t: int| 0 <= t < counts@.len() ==> #[trigger] counts@[t] == removed_before(to_remove@, t),
            colonizations@ == remapped_colonizations(
                movement_events.colonization_events@.take(i as int),
                to_remove@,
            ),
        decreases movement_events.colonization_events@.len() - i,
    {
        let e = movement_events.colonization_events[i];
        assert(movement_events.colonization_events@.take(i + 1).drop_last()
            =~= movement_events.colonization_events@.take(i as int));
        match remap_index(to_remove, &counts, e.fleet_idx) {
            Some(n) => {
                colonizations.push(ColonizationEvent { fleet_idx: n, ..e });
            },
            None => {},
        }
        i = i + 1;
        assert(colonizations@ =~= remapped_colonizations(
            movement_events.colonization_events@.take(i as int),
            to_remove@,
        ));
    }
    assert(movement_events.colonization_events@.take(i as int) =~= movement_events.colonization_events@);
    let mut missions: Vec<MissionEvent> = Vec::new();
    let mut i: usize = 0;
    while i < movement_events.mission_events.len()
        invariant
            i <= movement_events.mission_events@.len(),
            counts@.len() == to_remove@.len(),
            forall|t: int| 0 <= t < counts@.len() ==> #[trigger] counts@[t] == removed_before(to_remove@, t),
            missions@ == remapped_missions(movement_events.mission_events@.take(i as int), to_remove@),
        decreases movement_events.mission_events@.len() - i,
    {
        let e = movement_events.mission_events[i];
        assert(movement_events.mission_events@.take(i + 1).drop_last()
            =~= movement_events.mission_events@.take(i as int));
        match remap_index(to_remove, &counts, e.fleet_idx) {
            Some(n) => {
                missions.push(MissionEvent { fleet_idx: n, ..e });
            },
            None => {},
        }
        i = i + 1;
        assert(missions@ =~= remapped_missions(movement_events.mission_events@.take(i as int), to_remove@));
    }
    assert(movement_events.mission_events@.take(i as int) =~= movement_events.mission_events@);
    movement_events.colonization_events = colonizations;
    movement_events.mission_events = missions;
}

/// Stops a fleet in deep space where it stands; its exact position is kept.
pub fn set_fleet_to_deep_space_hold(fleet: &mut FleetRecord)
    ensures
        final(fleet).raw@ == held_in_place(old(fleet).raw@, false),
{
    let coords = fleet.current_location_coords_raw();
    fleet.set_current_speed(0);
    fleet.set_standing_order_kind(FleetStandingOrderKind::HoldPosition);
    fleet.set_standing_order_target_coords_raw(coords);
    fleet.set_tuple_c_payload_raw([0x81, 0x00, 0x00, 0x00, 0x00]);
    assert(fleet.raw@ =~= held_in_place(old(fleet).raw@, false));
}

/// Records that `owner` intruded on `defender`, when both are empires and
/// they differ; otherwise nothing changes.
pub fn queue_local_intrusion_escalation(
    movement_events: &mut MovementEvents,
    owner_empire_raw: u8,
    defender_empire_raw: u8,
)
    ensures
        final(movement_events).diplomatic_escalation_events@ == if owner_empire_raw != 0
            && defender_empire_raw != 0 && owner_empire_raw != defender_empire_raw {
            old(movement_events).diplomatic_escalation_events@.push(
                DiplomaticEscalationEvent {
                    left_empire_raw: owner_empire_raw,
                    right_empire_raw: defender_empire_raw,
                    stardate_week: None,
                },
            )
        } else {
            old(movement_events).diplomatic_escalation_events@
        },
        final(movement_events).colonization_events == old(movement_events).colonization_events,
        final(movement_events).planet_intel_events == old(movement_events).planet_intel_events,
        final(movement_events).mission_events == old(movement_events).mission_events,
        final(movement_events).salvage_events == old(movement_events).salvage_events,
{
    if owner_empire_raw != 0 && defender_empire_raw != 0 && owner_empire_raw != defender_empire_raw {
        movement_events.diplomatic_escalation_events.push(
            DiplomaticEscalationEvent {
                left_empire_raw: owner_empire_raw,
                right_empire_raw: defender_empire_raw,
                stardate_week: None,
            },
        );
    }
}

} // verus!
