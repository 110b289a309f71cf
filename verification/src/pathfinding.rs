//! Fleet routing across the sector grid.
//!
//! A fleet with a travelling order plans a route to its target with an A*
//! search over the eight-connected grid of the map. Each step costs a base
//! amount plus surcharges for known hazards on the entered sector.
use crate::game::CoreGameData;
use crate::map_dimensions::{map_size_for, map_size_for_player_count};
use crate::records::database::DatabaseDat;
use crate::records::fleet::{order_kind_of, FleetRecord, FleetStandingOrderKind};
use vstd::prelude::*;

verus! {

/// One sector on a planned route.
#[derive(Debug, Clone, Copy, PartialEq, Eq)]
pub struct RouteStep {
    pub coords: [u8; 2],
}

/// The sectors a fleet passes through, from where it is to its target.
#[derive(Debug, Clone, PartialEq, Eq)]
pub struct PlannedRoute {
    pub steps: Vec<RouteStep>,
}

/// Hazards that the routing empire knows of, as lists of sectors.
#[derive(Debug, Clone, Default, PartialEq, Eq)]
pub struct VisibleHazardIntel {
    /// Foreign worlds known to the routing empire.
    pub foreign_worlds: Vec<[u8; 2]>,
    /// Foreign starbases known to the routing empire.
    pub foreign_starbases: Vec<[u8; 2]>,
    /// Short-lived fleet contacts.
    pub foreign_fleets: Vec<[u8; 2]>,
    /// Known blockade locations.
    pub hostile_blockades: Vec<[u8; 2]>,
    /// Known hostile homeworlds.
    pub hostile_homeworlds: Vec<[u8; 2]>,
}

impl VisibleHazardIntel {
    /// Each list names a sector at most once.
    pub open spec fn well_formed(&self) -> bool {
        &&& distinct_sectors(self.foreign_worlds@)
        &&& distinct_sectors(self.foreign_starbases@)
        &&& distinct_sectors(self.foreign_fleets@)
        &&& distinct_sectors(self.hostile_blockades@)
        &&& distinct_sectors(self.hostile_homeworlds@)
    }
}

/// Cost of entering a sector with no known hazard.
pub const BASE_STEP_COST: u32 = 10;
const FOREIGN_WORLD_COST: u32 = 70;
const FOREIGN_FLEET_COST: u32 = 55;
const STARBASE_COST: u32 = 90;
const BLOCKADE_COST: u32 = 80;
const HOMEWORLD_COST: u32 = 45;
/// Sectors that cost this much or more are never entered.
pub const HARD_BLOCK_COST: u32 = 1073741823;

/// A sector as a pair of coordinates.
pub open spec fn sector(c: [u8; 2]) -> (int, int) {
    (c@[0] as int, c@[1] as int)
}

/// `a` and `b` are distinct sectors that touch, diagonals included.
pub open spec fn adjacent(a: (int, int), b: (int, int)) -> bool {
    a != b && -1 <= a.0 - b.0 <= 1 && -1 <= a.1 - b.1 <= 1
}

/// The sector lies on a map of side `map_size` (coordinates 0..map_size).
pub open spec fn on_map(c: (int, int), map_size: u8) -> bool {
    0 <= c.0 < map_size && 0 <= c.1 < map_size
}

/// `steps` leads from `start` to `goal`, one touching on-map sector at a time.
pub open spec fn is_route(steps: Seq<(int, int)>, start: (int, int), goal: (int, int), map_size: u8) -> bool {
    &&& steps.len() >= 1
    &&& steps[0] == start
    &&& steps.last() == goal
    &&& forall|i: int|
        0 <= i < steps.len() - 1 ==> adjacent(steps[i], #[trigger] steps[i + 1]) && on_map(
            steps[i + 1],
            map_size,
        )
}

/// The sectors of a planned route.
pub open spec fn route_sectors(route: PlannedRoute) -> Seq<(int, int)> {
    route.steps@.map_values(|s: RouteStep| sector(s.coords))
}

/// Orders whose fleets travel by planned routes.
pub open spec fn uses_pathfinding(order: FleetStandingOrderKind) -> bool {
    match order {
        FleetStandingOrderKind::MoveOnly | FleetStandingOrderKind::SeekHome
        | FleetStandingOrderKind::PatrolSector | FleetStandingOrderKind::ViewWorld
        | FleetStandingOrderKind::ScoutSector | FleetStandingOrderKind::ScoutSolarSystem
        | FleetStandingOrderKind::ColonizeWorld | FleetStandingOrderKind::JoinAnotherFleet
        | FleetStandingOrderKind::RendezvousSector => true,
        _ => false,
    }
}

fn order_uses_pathfinding(order: FleetStandingOrderKind) -> (r: bool)
    ensures
        r == uses_pathfinding(order),
{
    match order {
        FleetStandingOrderKind::MoveOnly | FleetStandingOrderKind::SeekHome
        | FleetStandingOrderKind::PatrolSector | FleetStandingOrderKind::ViewWorld
        | FleetStandingOrderKind::ScoutSector | FleetStandingOrderKind::ScoutSolarSystem
        | FleetStandingOrderKind::ColonizeWorld | FleetStandingOrderKind::JoinAnotherFleet
        | FleetStandingOrderKind::RendezvousSector => true,
        _ => false,
    }
}

/// Ten per unit of horizontal plus vertical distance.
pub open spec fn heuristic(from: (int, int), to: (int, int)) -> int {
    let dx = if from.0 >= to.0 { from.0 - to.0 } else { to.0 - from.0 };
    let dy = if from.1 >= to.1 { from.1 - to.1 } else { to.1 - from.1 };
    (dx + dy) * 10
}

fn heuristic_cost(from: [u8; 2], to: [u8; 2]) -> (r: u32)
    ensures
        r == heuristic(sector(from), sector(to)),
{
    let dx = if from[0] >= to[0] {
        from[0] - to[0]
    } else {
        to[0] - from[0]
    } as u32;
    let dy = if from[1] >= to[1] {
        from[1] - to[1]
    } else {
        to[1] - from[1]
    } as u32;
    (dx + dy) * BASE_STEP_COST
}

/// The on-map sectors touching `c` among the first `k` of the nine offsets
/// taken column by column (`dx` then `dy` from -1 to 1), the centre skipped.
pub open spec fn neighbors_upto(c: [u8; 2], map_size: u8, k: int) -> Seq<[u8; 2]>
    decreases k,
{
    if k <= 0 {
        Seq::empty()
    } else {
        let prev = neighbors_upto(c, map_size, k - 1);
        let dx = (k - 1) / 3 - 1;
        let dy = (k - 1) % 3 - 1;
        let nx = c@[0] + dx;
        let ny = c@[1] + dy;
        if !(dx == 0 && dy == 0) && 0 <= nx < map_size && 0 <= ny < map_size {
            prev.push([nx as u8, ny as u8])
        } else {
            prev
        }
    }
}

/// The on-map sectors touching `c`, in the order the search visits them.
pub open spec fn neighbor_seq(c: [u8; 2], map_size: u8) -> Seq<[u8; 2]> {
    neighbors_upto(c, map_size, 9)
}

/// The on-map sectors that touch `coords`, column by column (`dx` then `dy`
/// from -1 to 1).
fn neighbors(coords: [u8; 2], map_size: u8) -> (out: Vec<[u8; 2]>)
    ensures
        out@ == neighbor_seq(coords, map_size),
        forall|i: int|
            0 <= i < out@.len() ==> adjacent(sector(coords), #[trigger] sector(out@[i])) && on_map(
                sector(out@[i]),
                map_size,
            ),
        forall|a: int, b: int|
            #[trigger] adjacent(sector(coords), (a, b)) && on_map((a, b), map_size) ==> exists|i: int|
                0 <= i < out@.len() && sector(out@[i]) == (a, b),
{
    let x = coords[0] as i16;
    let y = coords[1] as i16;
    let max = map_size as i16 - 1;
    let mut out: Vec<[u8; 2]> = Vec::new();
    let mut dx: i16 = -1;
    while dx <= 1
        invariant
            -1 <= dx <= 2,
            x == coords@[0] as i16,
            y == coords@[1] as i16,
            max == map_size - 1,
            out@ == neighbors_upto(coords, map_size, (dx + 1) * 3),
            forall|i: int|
                0 <= i < out@.len() ==> adjacent(sector(coords), #[trigger] sector(out@[i])) && on_map(
                    sector(out@[i]),
                    map_size,
                ),
            forall|a: int, b: int|
                #[trigger] adjacent(sector(coords), (a, b)) && on_map((a, b), map_size) && a - coords@[0]
                    < dx ==> exists|i: int| 0 <= i < out@.len() && sector(out@[i]) == (a, b),
        decreases 2 - dx,
    {
        let mut dy: i16 = -1;
        while dy <= 1
            invariant
                -1 <= dx <= 1,
                -1 <= dy <= 2,
                x == coords@[0] as i16,
                y == coords@[1] as i16,
                max == map_size - 1,
                out@ == neighbors_upto(coords, map_size, (dx + 1) * 3 + dy + 1),
                forall|i: int|
                    0 <= i < out@.len() ==> adjacent(sector(coords), #[trigger] sector(out@[i]))
                        && on_map(sector(out@[i]), map_size),
                forall|a: int, b: int|
                    #[trigger] adjacent(sector(coords), (a, b)) && on_map((a, b), map_size) && (a
                        - coords@[0] < dx || (a - coords@[0] == dx && b - coords@[1] < dy))
                        ==> exists|i: int| 0 <= i < out@.len() && sector(out@[i]) == (a, b),
            decreases 2 - dy,
        {
            let ghost prev = out@;
            proof {
                let k = (dx + 1) * 3 + dy + 1;
                assert((k + 1 - 1) / 3 - 1 == dx && (k + 1 - 1) % 3 - 1 == dy) by (nonlinear_arith)
                    requires
                        k == (dx + 1) * 3 + dy + 1,
                        -1 <= dx <= 1,
                        -1 <= dy <= 1,
                ;
            }
            if !(dx == 0 && dy == 0) {
                let nx = x + dx;
                let ny = y + dy;
                if nx >= 0 && nx <= max && ny >= 0 && ny <= max {
                    let c: [u8; 2] = [nx as u8, ny as u8];
                    out.push(c);
                    assert(sector(out@[out@.len() - 1]) == (nx as int, ny as int));
                }
            }
            proof {
                assert forall|a: int, b: int|
                    #[trigger] adjacent(sector(coords), (a, b)) && on_map((a, b), map_size) && (a
                        - coords@[0] < dx || (a - coords@[0] == dx && b - coords@[1] < dy
                        + 1)) implies exists|i: int|
                    0 <= i < out@.len() && sector(out@[i]) == (a, b) by {
                    if a - coords@[0] == dx && b - coords@[1] == dy {
                        assert(sector(out@[out@.len() - 1]) == (a, b));
                    } else {
                        let i = choose|i: int| 0 <= i < prev.len() && sector(prev[i]) == (a, b);
                        assert(out@[i] == prev[i]);
                    }
                }
            }
            proof {
                assert(out@ =~= neighbors_upto(coords, map_size, (dx + 1) * 3 + dy + 1 + 1));
            }
            dy = dy + 1;
        }
        dx = dx + 1;
    }
    out
}

/// Whether `c` is in the list.
pub open spec fn listed(list: Seq<[u8; 2]>, c: [u8; 2]) -> bool {
    exists|i: int| 0 <= i < list.len() && sector(list[i]) == sector(c)
}

fn list_contains(list: &Vec<[u8; 2]>, c: [u8; 2]) -> (r: bool)
    ensures
        r == listed(list@, c),
{
    let mut i: usize = 0;
    while i < list.len()
        invariant
            i <= list@.len(),
            forall|k: int| 0 <= k < i ==> sector(list@[k]) != sector(c),
        decreases list@.len() - i,
    {
        if list[i][0] == c[0] && list[i][1] == c[1] {
            assert(sector(list@[i as int]) == sector(c));
            return true;
        }
        i = i + 1;
    }
    false
}

/// Cost of entering sector `c` on the way to `goal`: the base cost, plus a
/// surcharge per kind of known hazard there. The goal itself always costs
/// the base cost.
pub open spec fn step_cost(intel: VisibleHazardIntel, goal: [u8; 2], c: [u8; 2]) -> u32 {
    if sector(c) == sector(goal) {
        10
    } else {
        (10 + (if listed(intel.foreign_worlds@, c) { 70int } else { 0 }) + (if listed(
            intel.foreign_starbases@,
            c,
        ) {
            90int
        } else {
            0
        }) + (if listed(intel.foreign_fleets@, c) { 55int } else { 0 }) + (if listed(
            intel.hostile_blockades@,
            c,
        ) {
            80int
        } else {
            0
        }) + (if listed(intel.hostile_homeworlds@, c) { 45int } else { 0 })) as u32
    }
}

/// The costs of entering a sector: the goal, and any sector with no known
/// hazard, cost 10; elsewhere each kind of known hazard adds its surcharge,
/// whatever else is known there: a foreign world 70, a foreign starbase
/// 90, a fleet contact 55, a blockade 80, a hostile homeworld 45. `b` is
/// `a` with `c` newly listed in one list.
pub proof fn lemma_hazard_surcharges(a: VisibleHazardIntel, b: VisibleHazardIntel, goal: [u8; 2], c: [u8; 2])
    ensures
        step_cost(a, goal, goal) == 10,
        !listed(a.foreign_worlds@, c) && !listed(a.foreign_starbases@, c) && !listed(a.foreign_fleets@, c)
            && !listed(a.hostile_blockades@, c) && !listed(a.hostile_homeworlds@, c) ==> step_cost(a, goal, c)
            == 10,
        sector(c) != sector(goal) && !listed(a.foreign_worlds@, c) && listed(b.foreign_worlds@, c)
            && a.foreign_starbases@ == b.foreign_starbases@ && a.foreign_fleets@ == b.foreign_fleets@
            && a.hostile_blockades@ == b.hostile_blockades@ && a.hostile_homeworlds@ == b.hostile_homeworlds@
            ==> step_cost(b, goal, c) == step_cost(a, goal, c) + 70,
        sector(c) != sector(goal) && !listed(a.foreign_starbases@, c) && listed(b.foreign_starbases@, c)
            && a.foreign_worlds@ == b.foreign_worlds@ && a.foreign_fleets@ == b.foreign_fleets@
            && a.hostile_blockades@ == b.hostile_blockades@ && a.hostile_homeworlds@ == b.hostile_homeworlds@
            ==> step_cost(b, goal, c) == step_cost(a, goal, c) + 90,
        sector(c) != sector(goal) && !listed(a.foreign_fleets@, c) && listed(b.foreign_fleets@, c)
            && a.foreign_worlds@ == b.foreign_worlds@ && a.foreign_starbases@ == b.foreign_starbases@
            && a.hostile_blockades@ == b.hostile_blockades@ && a.hostile_homeworlds@ == b.hostile_homeworlds@
            ==> step_cost(b, goal, c) == step_cost(a, goal, c) + 55,
        sector(c) != sector(goal) && !listed(a.hostile_blockades@, c) && listed(b.hostile_blockades@, c)
            && a.foreign_worlds@ == b.foreign_worlds@ && a.foreign_starbases@ == b.foreign_starbases@
            && a.foreign_fleets@ == b.foreign_fleets@ && a.hostile_homeworlds@ == b.hostile_homeworlds@
            ==> step_cost(b, goal, c) == step_cost(a, goal, c) + 80,
        sector(c) != sector(goal) && !listed(a.hostile_homeworlds@, c) && listed(b.hostile_homeworlds@, c)
            && a.foreign_worlds@ == b.foreign_worlds@ && a.foreign_starbases@ == b.foreign_starbases@
            && a.foreign_fleets@ == b.foreign_fleets@ && a.hostile_blockades@ == b.hostile_blockades@
            ==> step_cost(b, goal, c) == step_cost(a, goal, c) + 45,
{
}

fn sector_cost(
    _fleet: &FleetRecord,
    order: FleetStandingOrderKind,
    final_goal: [u8; 2],
    coords: [u8; 2],
    intel: &VisibleHazardIntel,
) -> (r: u32)
    ensures
        r == step_cost(*intel, final_goal, coords),
        10 <= r <= 350,
{
    if coords[0] == final_goal[0] && coords[1] == final_goal[1] {
        return BASE_STEP_COST;
    }
    let mut cost = BASE_STEP_COST;
    if list_contains(&intel.foreign_worlds, coords) {
        cost = cost + FOREIGN_WORLD_COST;
    }
    if list_contains(&intel.foreign_starbases, coords) {
        cost = cost + STARBASE_COST;
    }
    if list_contains(&intel.foreign_fleets, coords) {
        cost = cost + FOREIGN_FLEET_COST;
    }
    if list_contains(&intel.hostile_blockades, coords) {
        cost = cost + BLOCKADE_COST;
    }
    if list_contains(&intel.hostile_homeworlds, coords) {
        cost = cost + HOMEWORLD_COST;
    }
    cost
}

/// The sector `max_steps` along the route (its last sector when the route
/// is shorter), or `None` for an empty route.
pub fn next_path_step(route: &PlannedRoute, max_steps: usize) -> (r: Option<[u8; 2]>)
    ensures
        route.steps@.len() == 0 ==> r is None,
        route.steps@.len() > 0 ==> r == Some(
            route.steps@[if max_steps < route.steps@.len() - 1 {
                max_steps as int
            } else {
                route.steps@.len() - 1
            }].coords,
        ),
{
    let n = route.steps.len();
    if n <= 1 {
        if n == 0 {
            return None;
        }
        return Some(route.steps[0].coords);
    }
    let idx = if max_steps < n - 1 {
        max_steps
    } else {
        n - 1
    };
    Some(route.steps[idx].coords)
}

/// Position of a sector in the search tables (every pair of byte
/// coordinates has one).
pub open spec fn node(c: (int, int)) -> int {
    c.0 * 256 + c.1
}

/// Number of entries in the search tables.
const NODE_COUNT: usize = 65536;

fn node_index(c: [u8; 2]) -> (r: usize)
    ensures
        r == node(sector(c)),
        r < 65536,
{
    c[0] as usize * 256 + c[1] as usize
}

/// A search entry: a sector with the cost of the path found to it.
#[derive(Debug, Clone, Copy, PartialEq, Eq)]
pub struct FrontierNode {
    pub estimated_total_cost: u32,
    pub cost_so_far: u32,
    pub coords: [u8; 2],
}

/// `a` is taken from the frontier no later than `b`: lower estimated total
/// first, then lower cost so far, then lower coordinates.
pub open spec fn pops_before(a: FrontierNode, b: FrontierNode) -> bool {
    a.estimated_total_cost < b.estimated_total_cost || (a.estimated_total_cost
        == b.estimated_total_cost && (a.cost_so_far < b.cost_so_far || (a.cost_so_far
        == b.cost_so_far && (a.coords@[0] < b.coords@[0] || (a.coords@[0] == b.coords@[0]
        && a.coords@[1] <= b.coords@[1])))))
}

/// The entry the frontier gives up next, among its first `n`: the first one
/// that is taken no later than any other.
pub open spec fn first_pop_upto(frontier: Seq<FrontierNode>, n: int) -> int
    decreases n,
{
    if n <= 1 {
        0
    } else {
        let b = first_pop_upto(frontier, n - 1);
        if pops_before(frontier[b], frontier[n - 1]) {
            b
        } else {
            n - 1
        }
    }
}

/// `x` capped at the largest 32-bit value.
pub open spec fn sat32(x: int) -> u32 {
    if x > u32::MAX {
        u32::MAX
    } else {
        x as u32
    }
}

/// The search's tables: the frontier, the best known cost of each sector
/// and the sector it was reached from, both indexed by `node`.
pub type SearchTables = (Seq<FrontierNode>, Seq<Option<u32>>, Seq<Option<[u8; 2]>>);

/// Trying to reach `next` from the expanded entry `cur`: when that is
/// cheaper than what is known of `next` (or `next` is new), its cost and
/// predecessor are recorded and it joins the frontier.
pub open spec fn relax(t: SearchTables, cur: FrontierNode, next: [u8; 2], intel: VisibleHazardIntel, goal: [u8; 2]) -> SearchTables {
    let new_cost = sat32(cur.cost_so_far + step_cost(intel, goal, next));
    let n = node(sector(next));
    if t.1[n] is None || new_cost < t.1[n]->0 {
        (
            t.0.push(
                FrontierNode {
                    estimated_total_cost: sat32(new_cost + heuristic(sector(next), sector(goal))),
                    cost_so_far: new_cost,
                    coords: next,
                },
            ),
            t.1.update(n, Some(new_cost)),
            t.2.update(n, Some(cur.coords)),
        )
    } else {
        t
    }
}

/// The tables after trying the first `j` of `nbrs` from `cur`.
pub open spec fn expand(
    t: SearchTables,
    cur: FrontierNode,
    nbrs: Seq<[u8; 2]>,
    intel: VisibleHazardIntel,
    goal: [u8; 2],
    j: int,
) -> SearchTables
    decreases j,
{
    if j <= 0 {
        t
    } else {
        relax(expand(t, cur, nbrs, intel, goal, j - 1), cur, nbrs[j - 1], intel, goal)
    }
}

/// A search state: the tables, whether the search has ended, and whether
/// it ended at the goal.
pub type SearchState = (SearchTables, bool, bool);

/// One round of the search: take the next entry from the frontier; stop
/// when it is the goal or when the frontier is empty, else try each of its
/// neighbours. An ended search stays as it is.
pub open spec fn search_step(st: SearchState, intel: VisibleHazardIntel, goal: [u8; 2], map_size: u8) -> SearchState {
    let t = st.0;
    if st.1 {
        st
    } else if t.0.len() == 0 {
        (t, true, false)
    } else {
        let i = first_pop_upto(t.0, t.0.len() as int);
        let cur = t.0[i];
        let rest = t.0.remove(i);
        if sector(cur.coords) == sector(goal) {
            ((rest, t.1, t.2), true, true)
        } else {
            let nbrs = neighbor_seq(cur.coords, map_size);
            (expand((rest, t.1, t.2), cur, nbrs, intel, goal, nbrs.len() as int), false, false)
        }
    }
}

/// The search after `n` rounds.
pub open spec fn search_run(st: SearchState, intel: VisibleHazardIntel, goal: [u8; 2], map_size: u8, n: nat) -> SearchState
    decreases n,
{
    if n == 0 {
        st
    } else {
        search_step(search_run(st, intel, goal, map_size, (n - 1) as nat), intel, goal, map_size)
    }
}

/// The search before its first round: only `start` is known, at cost 0.
pub open spec fn search_start(start: [u8; 2], goal: [u8; 2]) -> SearchState {
    (
        (
            seq![
                FrontierNode {
                    estimated_total_cost: heuristic(sector(start), sector(goal)) as u32,
                    cost_so_far: 0,
                    coords: start,
                },
            ],
            Seq::new(65536, |k: int| if k == node(sector(start)) { Some(0u32) } else { None }),
            Seq::new(65536, |k: int| None),
        ),
        false,
        false,
    )
}

/// The sectors from `cur` back to `start` by recorded predecessors, at most
/// `fuel` steps back.
pub open spec fn path_back(came: Seq<Option<[u8; 2]>>, start: [u8; 2], cur: [u8; 2], fuel: nat) -> Seq<[u8; 2]>
    decreases fuel,
{
    if fuel == 0 || sector(cur) == sector(start) || came[node(sector(cur))] is None {
        seq![cur]
    } else {
        seq![cur] + path_back(came, start, came[node(sector(cur))]->0, (fuel - 1) as nat)
    }
}

/// The route read off an ended search's tables: the predecessors from the
/// goal back to `start`, in travel order.
pub open spec fn route_from_tables(
    best: Seq<Option<u32>>,
    came: Seq<Option<[u8; 2]>>,
    start: [u8; 2],
    goal: [u8; 2],
) -> Seq<(int, int)> {
    let back = path_back(came, start, goal, (best[node(sector(goal))]->0 + 1) as nat);
    Seq::new(back.len(), |i: int| sector(back[back.len() - 1 - i]))
}

/// What the A* search from `start` to `goal` over a map of side
/// `map_size`, with the costs of `intel`, gives: the route read off its
/// tables when it reaches the goal, `None` when its frontier runs out.
pub open spec fn astar_route(start: [u8; 2], goal: [u8; 2], intel: VisibleHazardIntel, map_size: u8) -> Option<Seq<(int, int)>> {
    if exists|n: nat| (#[trigger] search_run(search_start(start, goal), intel, goal, map_size, n)).1 {
        let n = choose|n: nat| (#[trigger] search_run(search_start(start, goal), intel, goal, map_size, n)).1;
        let st = search_run(search_start(start, goal), intel, goal, map_size, n);
        if st.2 {
            Some(route_from_tables(st.0.1, st.0.2, start, goal))
        } else {
            None
        }
    } else {
        None
    }
}

proof fn lemma_search_ended_stays(st: SearchState, intel: VisibleHazardIntel, goal: [u8; 2], map_size: u8, a: nat, b: nat)
    requires
        a <= b,
        search_run(st, intel, goal, map_size, a).1,
    ensures
        search_run(st, intel, goal, map_size, b) == search_run(st, intel, goal, map_size, a),
    decreases b,
{
    if b > a {
        lemma_search_ended_stays(st, intel, goal, map_size, a, (b - 1) as nat);
    }
}

/// Once the search has ended after `k` rounds, `astar_route` is read off
/// that state.
proof fn lemma_astar_route_at(start: [u8; 2], goal: [u8; 2], intel: VisibleHazardIntel, map_size: u8, k: nat)
    requires
        search_run(search_start(start, goal), intel, goal, map_size, k).1,
    ensures
        astar_route(start, goal, intel, map_size) == ({
            let st = search_run(search_start(start, goal), intel, goal, map_size, k);
            if st.2 {
                Some(route_from_tables(st.0.1, st.0.2, start, goal))
            } else {
                None::<Seq<(int, int)>>
            }
        }),
{
    let init = search_start(start, goal);
    assert(search_run(init, intel, goal, map_size, k).1);
    let n = choose|n: nat| (#[trigger] search_run(init, intel, goal, map_size, n)).1;
    if n <= k {
        lemma_search_ended_stays(init, intel, goal, map_size, n, k);
    } else {
        lemma_search_ended_stays(init, intel, goal, map_size, k, n);
    }
}

/// The frontier gives up the entry with the lowest estimated total, on ties
/// the lowest cost so far, then the lowest coordinates (first x, then y),
/// and among identical entries the first.
pub proof fn lemma_first_pop_lowest(f: Seq<FrontierNode>, n: int)
    requires
        1 <= n <= f.len(),
    ensures
        0 <= first_pop_upto(f, n) < n,
        forall|j: int|
            0 <= j < n ==> {
                let a = f[first_pop_upto(f, n)];
                let b = #[trigger] f[j];
                a.estimated_total_cost < b.estimated_total_cost || (a.estimated_total_cost == b.estimated_total_cost && (
                a.cost_so_far < b.cost_so_far || (a.cost_so_far == b.cost_so_far && (a.coords@[0] < b.coords@[0] || (
                a.coords@[0] == b.coords@[0] && a.coords@[1] <= b.coords@[1])))))
            },
        forall|j: int|
            0 <= j < first_pop_upto(f, n) ==> {
                let a = f[first_pop_upto(f, n)];
                let b = #[trigger] f[j];
                !(b.estimated_total_cost == a.estimated_total_cost && b.cost_so_far == a.cost_so_far && b.coords@[0]
                    == a.coords@[0] && b.coords@[1] == a.coords@[1])
            },
    decreases n,
{
    if n > 1 {
        lemma_first_pop_lowest(f, n - 1);
    }
}

/// The search's estimate is ten per sector of horizontal plus vertical
/// distance: zero at the goal, the same both ways, and one orthogonal step
/// changes it by at most ten.
pub proof fn lemma_heuristic_shape(a: (int, int), b: (int, int), g: (int, int))
    ensures
        heuristic(g, g) == 0,
        heuristic(a, g) == heuristic(g, a),
        heuristic(a, g) >= 0,
        heuristic((g.0 + 1, g.1), g) == 10 && heuristic((g.0, g.1 + 1), g) == 10,
        heuristic((g.0 + 1, g.1 + 1), g) == 20,
        adjacent(a, b) && (a.0 == b.0 || a.1 == b.1) ==> -10 <= heuristic(a, g) - heuristic(b, g) <= 10,
{
}

fn pops_before_exec(a: &FrontierNode, b: &FrontierNode) -> (r: bool)
    ensures
        r == pops_before(*a, *b),
{
    a.estimated_total_cost < b.estimated_total_cost || (a.estimated_total_cost
        == b.estimated_total_cost && (a.cost_so_far < b.cost_so_far || (a.cost_so_far
        == b.cost_so_far && (a.coords[0] < b.coords[0] || (a.coords[0] == b.coords[0]
        && a.coords[1] <= b.coords[1])))))
}

/// Index of the entry that the frontier gives up next.
fn next_frontier_index(frontier: &Vec<FrontierNode>) -> (r: usize)
    requires
        frontier@.len() > 0,
    ensures
        r < frontier@.len(),
        r == first_pop_upto(frontier@, frontier@.len() as int),
        forall|j: int| 0 <= j < frontier@.len() ==> pops_before(frontier@[r as int], frontier@[j]),
{
    let mut best: usize = 0;
    let mut i: usize = 1;
    while i < frontier.len()
        invariant
            1 <= i <= frontier@.len(),
            best < i,
            best == first_pop_upto(frontier@, i as int),
            forall|j: int| 0 <= j < i ==> pops_before(frontier@[best as int], frontier@[j]),
        decreases frontier@.len() - i,
    {
        if !pops_before_exec(&frontier[best], &frontier[i]) {
            best = i;
        }
        i = i + 1;
    }
    best
}

/// Weight of a table entry in the termination measure.
spec fn entry_weight(e: Option<u32>) -> nat {
    match e {
        Some(v) => v as nat,
        None => 0x1_0000_0000nat,
    }
}

/// Sum of the entry weights: it drops whenever a sector's cost improves.
spec fn potential(s: Seq<Option<u32>>) -> nat
    decreases s.len(),
{
    if s.len() == 0 {
        0
    } else {
        potential(s.drop_last()) + entry_weight(s.last())
    }
}

/// Number of sectors reached so far.
spec fn reached_count(s: Seq<Option<u32>>) -> nat
    decreases s.len(),
{
    if s.len() == 0 {
        0
    } else {
        reached_count(s.drop_last()) + if s.last() is Some {
            1nat
        } else {
            0nat
        }
    }
}

proof fn lemma_update_measures(s: Seq<Option<u32>>, i: int, x: Option<u32>)
    requires
        0 <= i < s.len(),
    ensures
        potential(s.update(i, x)) + entry_weight(s[i]) == potential(s) + entry_weight(x),
        reached_count(s.update(i, x)) + (if s[i] is Some { 1int } else { 0 }) == reached_count(s) + (
        if x is Some {
            1int
        } else {
            0
        }),
        reached_count(s) <= s.len(),
    decreases s.len(),
{
    let t = s.update(i, x);
    if i == s.len() - 1 {
        assert(t.drop_last() =~= s.drop_last());
        lemma_count_bound(s);
    } else {
        lemma_update_measures(s.drop_last(), i, x);
        assert(t.drop_last() =~= s.drop_last().update(i, x));
        lemma_count_bound(s);
    }
}

proof fn lemma_count_bound(s: Seq<Option<u32>>)
    ensures
        reached_count(s) <= s.len(),
    decreases s.len(),
{
    if s.len() > 0 {
        lemma_count_bound(s.drop_last());
    }
}

/// The search state that the A* loop keeps: costs `best` and predecessors
/// `came` indexed by `node`, with `d` sectors reached.
spec fn search_state_ok(
    best: Seq<Option<u32>>,
    came: Seq<Option<[u8; 2]>>,
    start: [u8; 2],
    map_size: u8,
) -> bool {
    &&& best.len() == 65536
    &&& came.len() == 65536
    &&& best[node(sector(start))] == Some(0u32)
    &&& came[node(sector(start))] is None
    &&& 1 <= reached_count(best) <= 65536
    &&& forall|x: int, y: int|
        0 <= x < 256 && 0 <= y < 256 && (#[trigger] best[node((x, y))]) is Some ==> best[node(
            (x, y),
        )]->0 <= 350 * reached_count(best)
    &&& forall|x: int, y: int|
        0 <= x < 256 && 0 <= y < 256 && (#[trigger] came[node((x, y))]) is Some ==> {
            let c = came[node((x, y))]->0;
            &&& adjacent((x, y), sector(c))
            &&& on_map((x, y), map_size)
            &&& best[node((x, y))] is Some
            &&& best[node(sector(c))] is Some
            &&& best[node(sector(c))]->0 < best[node((x, y))]->0
        }
    &&& forall|x: int, y: int|
        0 <= x < 256 && 0 <= y < 256 && (#[trigger] best[node((x, y))]) is Some && (x, y) != sector(
            start,
        ) ==> came[node((x, y))] is Some
}

/// Every frontier entry's sector is reached, at a cost no higher than the
/// entry's, and within the bound of the reached count.
spec fn frontier_ok(frontier: Seq<FrontierNode>, best: Seq<Option<u32>>) -> bool {
    forall|j: int|
        0 <= j < frontier.len() ==> {
            let f = #[trigger] frontier[j];
            &&& best[node(sector(f.coords))] is Some
            &&& best[node(sector(f.coords))]->0 <= f.cost_so_far
            &&& f.cost_so_far <= 350 * reached_count(best)
        }
}

/// Every neighbour on the map of sector `p` is reached, and `p` is not the
/// goal: the search has expanded `p`.
spec fn settled(best: Seq<Option<u32>>, p: (int, int), goal: [u8; 2], map_size: u8) -> bool {
    &&& p != sector(goal)
    &&& forall|a: int, b: int|
        #[trigger] adjacent(p, (a, b)) && on_map((a, b), map_size) ==> best[node((a, b))] is Some
}

/// The frontier holds an entry for sector `p` at its best known cost.
spec fn queued(frontier: Seq<FrontierNode>, best: Seq<Option<u32>>, p: (int, int)) -> bool {
    exists|j: int|
        0 <= j < frontier.len() && sector(#[trigger] frontier[j].coords) == p
            && frontier[j].cost_so_far == best[node(p)]->0
}

/// Each reached sector is either still queued or already expanded.
spec fn search_progress(
    best: Seq<Option<u32>>,
    frontier: Seq<FrontierNode>,
    goal: [u8; 2],
    map_size: u8,
) -> bool {
    forall|x: int, y: int|
        0 <= x < 256 && 0 <= y < 256 && (#[trigger] best[node((x, y))]) is Some ==> queued(
            frontier,
            best,
            (x, y),
        ) || settled(best, (x, y), goal, map_size)
}

/// As `search_progress`, while sector `cur` is being expanded.
spec fn progress_except(
    best: Seq<Option<u32>>,
    frontier: Seq<FrontierNode>,
    goal: [u8; 2],
    map_size: u8,
    cur: (int, int),
) -> bool {
    forall|x: int, y: int|
        0 <= x < 256 && 0 <= y < 256 && (#[trigger] best[node((x, y))]) is Some ==> queued(
            frontier,
            best,
            (x, y),
        ) || settled(best, (x, y), goal, map_size) || (x, y) == cur
}

/// Recording a cheaper cost for `next`, with its frontier entry, keeps every
/// reached sector queued or expanded.
proof fn lemma_progress_step(
    b0: Seq<Option<u32>>,
    f0: Seq<FrontierNode>,
    goal: [u8; 2],
    map_size: u8,
    cur: (int, int),
    next: [u8; 2],
    new_cost: u32,
    entry: FrontierNode,
)
    requires
        b0.len() == 65536,
        progress_except(b0, f0, goal, map_size, cur),
        entry.coords == next,
        entry.cost_so_far == new_cost,
    ensures
        progress_except(
            b0.update(node(sector(next)), Some(new_cost)),
            f0.push(entry),
            goal,
            map_size,
            cur,
        ),
        forall|k: int|
            0 <= k < b0.len() && b0[k] is Some ==> (#[trigger] b0.update(node(sector(next)), Some(new_cost))[k]) is Some,
{
    let b1 = b0.update(node(sector(next)), Some(new_cost));
    let f1 = f0.push(entry);
    let n = node(sector(next));
    assert forall|x: int, y: int|
        0 <= x < 256 && 0 <= y < 256 && (#[trigger] b1[node((x, y))]) is Some implies queued(
            f1,
            b1,
            (x, y),
        ) || settled(b1, (x, y), goal, map_size) || (x, y) == cur by {
        if node((x, y)) == n {
            assert(f1[f0.len() as int] == entry);
            assert(sector(f1[f0.len() as int].coords) == (x, y));
        } else {
            assert(b0[node((x, y))] is Some);
            if queued(f0, b0, (x, y)) {
                let q = choose|q: int|
                    0 <= q < f0.len() && sector(#[trigger] f0[q].coords) == (x, y)
                        && f0[q].cost_so_far == b0[node((x, y))]->0;
                assert(f1[q] == f0[q]);
            } else if settled(b0, (x, y), goal, map_size) {
                assert forall|a: int, b: int|
                    #[trigger] adjacent((x, y), (a, b)) && on_map((a, b), map_size) implies b1[node(
                        (a, b),
                    )] is Some by {
                    assert(b0[node((a, b))] is Some);
                }
            }
        }
    }
}

/// A set of sectors that holds `p` and, with each of its sectors, every
/// touching sector on the map, holds every sector on the map.
proof fn lemma_closed_reaches(best: Seq<Option<u32>>, p: (int, int), q: (int, int), map_size: u8)
    requires
        best.len() == 65536,
        on_map(p, map_size),
        on_map(q, map_size),
        best[node(p)] is Some,
        forall|x: int, y: int|
            0 <= x < 256 && 0 <= y < 256 && (#[trigger] best[node((x, y))]) is Some ==> forall|
                a: int,
                b: int,
            | #[trigger] adjacent((x, y), (a, b)) && on_map((a, b), map_size) ==> best[node((a, b))] is Some,
    ensures
        best[node(q)] is Some,
    decreases (if p.0 >= q.0 { p.0 - q.0 } else { q.0 - p.0 }) + (if p.1 >= q.1 { p.1 - q.1 } else { q.1 - p.1 }),
{
    if p != q {
        let nx = if p.0 < q.0 { p.0 + 1 } else if p.0 > q.0 { p.0 - 1 } else { p.0 };
        let ny = if p.1 < q.1 { p.1 + 1 } else if p.1 > q.1 { p.1 - 1 } else { p.1 };
        assert(adjacent((p.0, p.1), (nx, ny)));
        assert(on_map((nx, ny), map_size));
        assert(best[node((p.0, p.1))] is Some);
        lemma_closed_reaches(best, (nx, ny), q, map_size);
    }
}

/// Follows the predecessors back from `goal` to `start`.
fn reconstruct_route(
    start: [u8; 2],
    goal: [u8; 2],
    came: &Vec<Option<[u8; 2]>>,
    Ghost(best): Ghost<Seq<Option<u32>>>,
    Ghost(map_size): Ghost<u8>,
) -> (r: PlannedRoute)
    requires
        search_state_ok(best, came@, start, map_size),
        best[node(sector(goal))] is Some,
    ensures
        is_route(route_sectors(r), sector(start), sector(goal), map_size),
        route_sectors(r).no_duplicates(),
        route_sectors(r) == route_from_tables(best, came@, start, goal),
{
    let ghost fuel: nat = (best[node(sector(goal))]->0 + 1) as nat;
    let mut coords: Vec<[u8; 2]> = Vec::new();
    coords.push(goal);
    let mut cursor = goal;
    while !(cursor[0] == start[0] && cursor[1] == start[1]) && came[node_index(cursor)].is_some()
        invariant
            search_state_ok(best, came@, start, map_size),
            best[node(sector(cursor))] is Some,
            coords@.len() >= 1,
            sector(coords@[0]) == sector(goal),
            sector(coords@.last()) == sector(cursor),
            coords@.last() == cursor,
            fuel == best[node(sector(goal))]->0 + 1,
            best[node(sector(cursor))]->0 + coords@.len() - 1 <= best[node(sector(goal))]->0,
            path_back(came@, start, goal, fuel) == coords@.take(coords@.len() - 1) + path_back(
                came@,
                start,
                cursor,
                (fuel - (coords@.len() - 1)) as nat,
            ),
            forall|i: int|
                0 <= i < coords@.len() - 1 ==> adjacent(
                    sector(coords@[i]),
                    sector(#[trigger] coords@[i + 1]),
                ) && on_map(sector(coords@[i]), map_size),
            forall|i: int| 0 <= i < coords@.len() ==> best[node(sector(#[trigger] coords@[i]))] is Some,
            forall|i: int, j: int|
                0 <= i < j < coords@.len() ==> best[node(sector(#[trigger] coords@[i]))]->0 > best[node(
                    sector(#[trigger] coords@[j]),
                )]->0,
        decreases best[node(sector(cursor))]->0,
    {
        let prev = came[node_index(cursor)].unwrap();
        proof {
            let x = cursor@[0] as int;
            let y = cursor@[1] as int;
            assert(came@[node((x, y))] is Some);
            assert(sector(cursor) == (x, y));
            assert(best[node(sector(prev))] is Some);
            assert(best[node(sector(prev))]->0 < best[node(sector(cursor))]->0);
        }
        let ghost before = coords@;
        let ghost old_cursor = cursor;
        proof {
            let f = (fuel - (before.len() - 1)) as nat;
            assert(f >= 1);
            assert(sector(cursor) != sector(start));
            assert(path_back(came@, start, old_cursor, f) == seq![old_cursor] + path_back(
                came@,
                start,
                prev,
                (f - 1) as nat,
            ));
        }
        cursor = prev;
        coords.push(prev);
        proof {
            assert(coords@.take(coords@.len() - 1) =~= before);
            assert(before =~= before.take(before.len() - 1) + seq![old_cursor]);
        }
        proof {
            assert forall|i: int, j: int|
                0 <= i < j < coords@.len() implies best[node(sector(#[trigger] coords@[i]))]->0 > best[node(
                    sector(#[trigger] coords@[j]),
                )]->0 by {
                if j == coords@.len() - 1 {
                    assert(coords@[j] == prev);
                    assert(coords@[i] == before[i]);
                    if i < before.len() - 1 {
                        assert(best[node(sector(before[i]))]->0 > best[node(sector(before[before.len() - 1]))]->0);
                    }
                } else {
                    assert(coords@[i] == before[i]);
                    assert(coords@[j] == before[j]);
                }
            }
        }
    }
    proof {
        if !(cursor@[0] == start@[0] && cursor@[1] == start@[1]) {
            let x = cursor@[0] as int;
            let y = cursor@[1] as int;
            assert(best[node((x, y))] is Some);
            assert((x, y) != sector(start));
            assert(came@[node((x, y))] is Some);
            assert(false);
        }
        let f = (fuel - (coords@.len() - 1)) as nat;
        assert(path_back(came@, start, cursor, f) == seq![cursor]);
        assert(coords@ =~= coords@.take(coords@.len() - 1) + seq![cursor]);
    }
    let n = coords.len();
    let mut steps: Vec<RouteStep> = Vec::new();
    let mut k: usize = n;
    while k > 0
        invariant
            k <= n,
            n == coords@.len(),
            steps@.len() == n - k,
            forall|i: int| 0 <= i < n - k ==> #[trigger] steps@[i].coords == coords@[n - 1 - i],
        decreases k,
    {
        k = k - 1;
        steps.push(RouteStep { coords: coords[k] });
    }
    let r = PlannedRoute { steps };
    proof {
        let rs = route_sectors(r);
        assert(rs.len() == n);
        assert forall|i: int| 0 <= i < rs.len() - 1 implies adjacent(rs[i], #[trigger] rs[i + 1])
            && on_map(rs[i + 1], map_size) by {
            let j = n - 2 - i;
            assert(rs[i] == sector(coords@[j + 1]));
            assert(rs[i + 1] == sector(coords@[j]));
            assert(adjacent(sector(coords@[j]), sector(coords@[j + 1])));
        }
        assert(rs[0] == sector(coords@[n - 1]));
        assert(rs.last() == sector(coords@[0]));
        assert(rs =~= route_from_tables(best, came@, start, goal));
        assert forall|i: int, j: int| 0 <= i < rs.len() && 0 <= j < rs.len() && i != j implies rs[i]
            != rs[j] by {
            assert(rs[i] == sector(coords@[n - 1 - i]));
            assert(rs[j] == sector(coords@[n - 1 - j]));
            if rs[i] == rs[j] {
                if n - 1 - i < n - 1 - j {
                    assert(best[node(sector(coords@[n - 1 - i]))]->0 > best[node(sector(coords@[n - 1 - j]))]->0);
                } else {
                    assert(best[node(sector(coords@[n - 1 - j]))]->0 > best[node(sector(coords@[n - 1 - i]))]->0);
                }
            }
        }
    }
    r
}

/// The route a fleet's order asks for: where it is, where its order points
/// to, and the order; `None` when the fleet does not exist.
pub open spec fn route_request(game_data: CoreGameData, fleet_idx: int) -> Option<
    (FleetStandingOrderKind, (int, int), (int, int)),
> {
    if 0 <= fleet_idx < game_data.fleets.records@.len() {
        let raw = game_data.fleets.records@[fleet_idx].raw@;
        Some((order_kind_of(raw[0x1F]), (raw[0x0B] as int, raw[0x0C] as int), (raw[0x20] as int, raw[0x21] as int)))
    } else {
        None
    }
}

/// Where fleet `fleet_idx` stands and where its order points.
pub open spec fn route_ends(game_data: CoreGameData, fleet_idx: int) -> ([u8; 2], [u8; 2]) {
    let raw = game_data.fleets.records@[fleet_idx].raw@;
    ([raw[0x0B], raw[0x0C]], [raw[0x20], raw[0x21]])
}

/// Plans the route of fleet `fleet_idx` by an A* search in which the
/// hazards in `intel` make sectors dearer to enter. The search's estimate
/// counts a diagonal step as two, so the route found is not always the
/// cheapest one.
///
/// `None` when the fleet does not exist, its order does not travel, or the
/// target cannot be reached; a one-sector route when it is already there;
/// otherwise a route of touching on-map sectors from its position to its
/// target that passes no sector twice. No sector is closed to travel, so a
/// route is always found when both ends lie on the map. Away from the goal
/// the route is exactly what `astar_route` gives: the frontier gives up the entry with
/// the lowest estimate, then the lowest cost so far, then the lowest
/// coordinates, and neighbours are tried column by column.
#[verifier::rlimit(60)]
#[verifier::spinoff_prover]
pub fn plan_route_with_intel(game_data: &CoreGameData, fleet_idx: usize, intel: &VisibleHazardIntel) -> (r: Option<PlannedRoute>)
    ensures
        match route_request(*game_data, fleet_idx as int) {
            None => r is None,
            Some((order, start, goal)) => {
                &&& !uses_pathfinding(order) ==> r is None
                &&& uses_pathfinding(order) && start == goal ==> (r matches Some(route)
                    && route_sectors(route) == seq![start])
                &&& r matches Some(route) ==> is_route(
                    route_sectors(route),
                    start,
                    goal,
                    map_size_for(game_data.conquest.raw@[2]),
                ) && route_sectors(route).no_duplicates()
                &&& uses_pathfinding(order) && on_map(start, map_size_for(game_data.conquest.raw@[2]))
                    && on_map(goal, map_size_for(game_data.conquest.raw@[2])) ==> r is Some
                &&& uses_pathfinding(order) && start != goal ==> match astar_route(
                    route_ends(*game_data, fleet_idx as int).0,
                    route_ends(*game_data, fleet_idx as int).1,
                    *intel,
                    map_size_for(game_data.conquest.raw@[2]),
                ) {
                    Some(s) => r matches Some(route) && route_sectors(route) == s,
                    None => r is None,
                }
            },
        },
{
    if fleet_idx >= game_data.fleets.records.len() {
        return None;
    }
    let fleet = &game_data.fleets.records[fleet_idx];
    let order = fleet.standing_order_kind();
    if !order_uses_pathfinding(order) {
        return None;
    }
    let start = fleet.current_location_coords_raw();
    let goal = fleet.standing_order_target_coords_raw();
    assert(sector(start) == (fleet.raw@[0x0B] as int, fleet.raw@[0x0C] as int));
    assert(sector(goal) == (fleet.raw@[0x20] as int, fleet.raw@[0x21] as int));
    assert(start =~= route_ends(*game_data, fleet_idx as int).0);
    assert(goal =~= route_ends(*game_data, fleet_idx as int).1);
    if start[0] == goal[0] && start[1] == goal[1] {
        let mut steps: Vec<RouteStep> = Vec::new();
        steps.push(RouteStep { coords: start });
        let r = PlannedRoute { steps };
        assert(route_sectors(r) =~= seq![sector(start)]);
        return Some(r);
    }
    let map_size = map_size_for_player_count(game_data.conquest.player_count());
    let mut frontier: Vec<FrontierNode> = Vec::new();
    frontier.push(
        FrontierNode {
            estimated_total_cost: heuristic_cost(start, goal),
            cost_so_far: 0,
            coords: start,
        },
    );
    assert(map_size == map_size_for(game_data.conquest.raw@[2]));
    let mut came: Vec<Option<[u8; 2]>> = Vec::new();
    let mut best: Vec<Option<u32>> = Vec::new();
    let mut i: usize = 0;
    while i < NODE_COUNT
        invariant
            i <= NODE_COUNT,
            came@.len() == i,
            best@.len() == i,
            forall|k: int| 0 <= k < i ==> came@[k] is None && best@[k] is None,
        decreases NODE_COUNT - i,
    {
        came.push(None);
        best.push(None);
        i = i + 1;
    }
    proof {
        lemma_all_none_count(best@);
    }
    let ghost before = best@;
    best.set(node_index(start), Some(0));
    proof {
        lemma_update_measures(before, node(sector(start)), Some(0u32));
        assert forall|x: int, y: int|
            0 <= x < 256 && 0 <= y < 256 && (#[trigger] best@[node((x, y))]) is Some implies queued(
                frontier@,
                best@,
                (x, y),
            ) || settled(best@, (x, y), goal, map_size) by {
            assert(node((x, y)) == node(sector(start)));
            assert(sector(frontier@[0].coords) == (x, y));
        }
    }
    let ghost init = search_start(start, goal);
    let ghost mut rounds: nat = 0;
    proof {
        assert(frontier@ =~= init.0.0);
        assert(best@ =~= init.0.1);
        assert(came@ =~= init.0.2);
    }
    while frontier.len() > 0
        invariant
            init == search_start(start, goal),
            start == route_ends(*game_data, fleet_idx as int).0,
            goal == route_ends(*game_data, fleet_idx as int).1,
            search_run(init, *intel, goal, map_size, rounds) == ((frontier@, best@, came@), false, false),
            search_state_ok(best@, came@, start, map_size),
            frontier_ok(frontier@, best@),
            search_progress(best@, frontier@, goal, map_size),
            sector(start) != sector(goal),
            route_request(*game_data, fleet_idx as int) == Some((order, sector(start), sector(goal))),
            uses_pathfinding(order),
            map_size == map_size_for(game_data.conquest.raw@[2]),
        decreases potential(best@), frontier@.len(),
    {
        let idx = next_frontier_index(&frontier);
        let ghost f0 = frontier@;
        let ghost b0 = best@;
        let ghost c0 = came@;
        let current = frontier.remove(idx);
        if current.coords[0] == goal[0] && current.coords[1] == goal[1] {
            let route = reconstruct_route(start, goal, &came, Ghost(best@), Ghost(map_size));
            proof {
                assert(search_run(init, *intel, goal, map_size, rounds + 1) == ((frontier@, best@, came@), true, true));
                lemma_astar_route_at(start, goal, *intel, map_size, rounds + 1);
            }
            return Some(route);
        }
        proof {
            assert forall|x: int, y: int|
                0 <= x < 256 && 0 <= y < 256 && (#[trigger] best@[node((x, y))]) is Some implies queued(
                    frontier@,
                    best@,
                    (x, y),
                ) || settled(best@, (x, y), goal, map_size) || (x, y) == sector(current.coords) by {
                if queued(f0, best@, (x, y)) {
                    let q = choose|q: int|
                        0 <= q < f0.len() && sector(#[trigger] f0[q].coords) == (x, y)
                            && f0[q].cost_so_far == best@[node((x, y))]->0;
                    if q < idx {
                        assert(frontier@[q] == f0[q]);
                    } else if q > idx {
                        assert(frontier@[q - 1] == f0[q]);
                    }
                }
            }
        }
        let ghost p0 = potential(best@);
        let ghost l0 = frontier@.len();
        let ghost cb = best@[node(sector(current.coords))]->0;
        let next_list = neighbors(current.coords, map_size);
        let ghost rest = frontier@;
        proof {
            assert(rest =~= f0.remove(idx as int));
        }
        let mut j: usize = 0;
        while j < next_list.len()
            invariant
                j <= next_list@.len(),
                next_list@ == neighbor_seq(current.coords, map_size),
                (frontier@, best@, came@) == expand((rest, b0, c0), current, next_list@, *intel, goal, j as int),
                search_state_ok(best@, came@, start, map_size),
                frontier_ok(frontier@, best@),
                sector(current.coords) != sector(goal),
                progress_except(best@, frontier@, goal, map_size, sector(current.coords)),
                forall|k: int| 0 <= k < j ==> best@[node(sector(#[trigger] next_list@[k]))] is Some,
                forall|a: int, b: int|
                    #[trigger] adjacent(sector(current.coords), (a, b)) && on_map((a, b), map_size)
                        ==> exists|i: int| 0 <= i < next_list@.len() && sector(next_list@[i]) == (a, b),
                best@[node(sector(current.coords))] is Some,
                best@[node(sector(current.coords))]->0 <= current.cost_so_far,
                current.cost_so_far <= 350 * reached_count(best@),
                forall|k: int|
                    0 <= k < next_list@.len() ==> adjacent(
                        sector(current.coords),
                        #[trigger] sector(next_list@[k]),
                    ) && on_map(sector(next_list@[k]), map_size),
                potential(best@) <= p0,
                potential(best@) == p0 ==> frontier@.len() == l0,
            decreases next_list@.len() - j,
        {
            let next = next_list[j];
            let step_cost = sector_cost(fleet, order, goal, next, intel);
            if step_cost < HARD_BLOCK_COST {
                let new_cost = current.cost_so_far.saturating_add(step_cost);
                let n = node_index(next);
                let is_better = match best[n] {
                    Some(existing) => new_cost < existing,
                    None => true,
                };
                if is_better {
                    let ghost b0 = best@;
                    let ghost c0 = came@;
                    let ghost t0 = (frontier@, best@, came@);
                    proof {
                        lemma_update_measures(b0, n as int, Some(new_cost));
                        assert(new_cost == current.cost_so_far + step_cost);
                    }
                    let ghost fr0 = frontier@;
                    best.set(n, Some(new_cost));
                    came.set(n, Some(current.coords));
                    let entry = FrontierNode {
                        estimated_total_cost: new_cost.saturating_add(heuristic_cost(next, goal)),
                        cost_so_far: new_cost,
                        coords: next,
                    };
                    frontier.push(entry);
                    proof {
                        assert((frontier@, best@, came@) == relax(t0, current, next, *intel, goal));
                        lemma_progress_step(b0, fr0, goal, map_size, sector(current.coords), next, new_cost, entry);
                        assert forall|k: int| 0 <= k < j + 1 implies best@[node(sector(#[trigger] next_list@[k]))] is Some by {
                            if k < j {
                                assert(b0[node(sector(next_list@[k]))] is Some);
                            }
                        }
                        lemma_search_step(b0, c0, best@, came@, start, map_size, current.coords, next, new_cost);
                        assert forall|q: int| 0 <= q < frontier@.len() implies {
                            let f = #[trigger] frontier@[q];
                            &&& best@[node(sector(f.coords))] is Some
                            &&& best@[node(sector(f.coords))]->0 <= f.cost_so_far
                            &&& f.cost_so_far <= 350 * reached_count(best@)
                        } by {
                            if q < frontier@.len() - 1 {
                                let f = frontier@[q];
                                if node(sector(f.coords)) == n as int {
                                } else {
                                }
                            }
                        }
                    }
                }
            }
            proof {
                if !(step_cost < HARD_BLOCK_COST) {
                    assert(false);
                }
                assert(next == next_list@[j as int]);
                assert(best@[node(sector(next))] is Some);
            }
            j = j + 1;
        }
        proof {
            assert(search_run(init, *intel, goal, map_size, rounds + 1) == ((frontier@, best@, came@), false, false));
            rounds = rounds + 1;
            assert forall|x: int, y: int|
                0 <= x < 256 && 0 <= y < 256 && (#[trigger] best@[node((x, y))]) is Some implies queued(
                    frontier@,
                    best@,
                    (x, y),
                ) || settled(best@, (x, y), goal, map_size) by {
                if (x, y) == sector(current.coords) {
                    assert forall|a: int, b: int|
                        #[trigger] adjacent((x, y), (a, b)) && on_map((a, b), map_size) implies best@[node(
                            (a, b),
                        )] is Some by {
                        assert(adjacent(sector(current.coords), (a, b)));
                        let i = choose|i: int| 0 <= i < next_list@.len() && sector(next_list@[i]) == (a, b);
                        assert(best@[node(sector(next_list@[i]))] is Some);
                    }
                }
            }
        }
    }
    proof {
        assert(search_run(init, *intel, goal, map_size, rounds + 1) == ((frontier@, best@, came@), true, false));
        lemma_astar_route_at(start, goal, *intel, map_size, rounds + 1);
        if on_map(sector(start), map_size) && on_map(sector(goal), map_size) {
            assert forall|x: int, y: int|
                0 <= x < 256 && 0 <= y < 256 && (#[trigger] best@[node((x, y))]) is Some implies forall|
                    a: int,
                    b: int,
                | #[trigger] adjacent((x, y), (a, b)) && on_map((a, b), map_size) ==> best@[node((a, b))] is Some by {
                assert(settled(best@, (x, y), goal, map_size));
            }
            lemma_closed_reaches(best@, sector(start), sector(goal), map_size);
            let gx = goal@[0] as int;
            let gy = goal@[1] as int;
            assert(best@[node((gx, gy))] is Some);
            assert(!settled(best@, (gx, gy), goal, map_size));
            assert(false);
        }
    }
    None
}

proof fn lemma_all_none_count(s: Seq<Option<u32>>)
    requires
        forall|k: int| 0 <= k < s.len() ==> s[k] is None,
    ensures
        reached_count(s) == 0,
    decreases s.len(),
{
    if s.len() > 0 {
        lemma_all_none_count(s.drop_last());
    }
}

/// Recording a cheaper path to `next` through `cur` keeps the search state.
proof fn lemma_search_step(
    b0: Seq<Option<u32>>,
    c0: Seq<Option<[u8; 2]>>,
    b1: Seq<Option<u32>>,
    c1: Seq<Option<[u8; 2]>>,
    start: [u8; 2],
    map_size: u8,
    cur: [u8; 2],
    next: [u8; 2],
    new_cost: u32,
)
    requires
        search_state_ok(b0, c0, start, map_size),
        b0[node(sector(cur))] is Some,
        b0[node(sector(cur))]->0 < new_cost,
        new_cost <= 350 * (reached_count(b0) + 1),
        adjacent(sector(cur), sector(next)),
        on_map(sector(next), map_size),
        b0[node(sector(next))] is Some ==> new_cost < b0[node(sector(next))]->0,
        b1 == b0.update(node(sector(next)), Some(new_cost)),
        c1 == c0.update(node(sector(next)), Some(cur)),
    ensures
        search_state_ok(b1, c1, start, map_size),
        reached_count(b1) >= reached_count(b0),
        forall|k: int| 0 <= k < b0.len() && b0[k] is Some ==> b1[k] is Some && b1[k]->0 <= b0[k]->0,
{
    let n = node(sector(next));
    lemma_update_measures(b0, n, Some(new_cost));
    lemma_count_bound(b1);
    assert(sector(next) != sector(start));
    assert(n != node(sector(start)));
    assert forall|x: int, y: int|
        0 <= x < 256 && 0 <= y < 256 && (#[trigger] b1[node((x, y))]) is Some implies b1[node(
            (x, y),
        )]->0 <= 350 * reached_count(b1) by {
        if node((x, y)) != n {
            assert(b0[node((x, y))] is Some);
        }
    }
    assert forall|x: int, y: int|
        0 <= x < 256 && 0 <= y < 256 && (#[trigger] c1[node((x, y))]) is Some implies {
            let c = c1[node((x, y))]->0;
            &&& adjacent((x, y), sector(c))
            &&& on_map((x, y), map_size)
            &&& b1[node((x, y))] is Some
            &&& b1[node(sector(c))] is Some
            &&& b1[node(sector(c))]->0 < b1[node((x, y))]->0
        } by {
        if node((x, y)) == n {
            assert((x, y) == sector(next));
        } else {
            let c = c0[node((x, y))]->0;
            assert(c0[node((x, y))] is Some);
            assert(b0[node(sector(c))] is Some);
        }
    }
    assert forall|x: int, y: int|
        0 <= x < 256 && 0 <= y < 256 && (#[trigger] b1[node((x, y))]) is Some && (x, y) != sector(
            start,
        ) implies c1[node((x, y))] is Some by {
        if node((x, y)) != n {
            assert(b0[node((x, y))] is Some);
        }
    }
}

/// The intel lists no hazard at all.
pub open spec fn knows_no_hazards(intel: VisibleHazardIntel) -> bool {
    &&& intel.foreign_worlds@.len() == 0
    &&& intel.foreign_starbases@.len() == 0
    &&& intel.foreign_fleets@.len() == 0
    &&& intel.hostile_blockades@.len() == 0
    &&& intel.hostile_homeworlds@.len() == 0
}

/// Plans the route of fleet `fleet_idx` with no known hazards (see
/// `plan_route_with_intel`).
pub fn plan_route(game_data: &CoreGameData, fleet_idx: usize) -> (r: Option<PlannedRoute>)
    ensures
        match route_request(*game_data, fleet_idx as int) {
            None => r is None,
            Some((order, start, goal)) => {
                &&& !uses_pathfinding(order) ==> r is None
                &&& uses_pathfinding(order) && start == goal ==> (r matches Some(route)
                    && route_sectors(route) == seq![start])
                &&& r matches Some(route) ==> is_route(
                    route_sectors(route),
                    start,
                    goal,
                    map_size_for(game_data.conquest.raw@[2]),
                ) && route_sectors(route).no_duplicates()
                &&& uses_pathfinding(order) && on_map(start, map_size_for(game_data.conquest.raw@[2]))
                    && on_map(goal, map_size_for(game_data.conquest.raw@[2])) ==> r is Some
                &&& uses_pathfinding(order) && start != goal ==> exists|intel: VisibleHazardIntel|
                    knows_no_hazards(intel) && match #[trigger] astar_route(
                        route_ends(*game_data, fleet_idx as int).0,
                        route_ends(*game_data, fleet_idx as int).1,
                        intel,
                        map_size_for(game_data.conquest.raw@[2]),
                    ) {
                        Some(s) => r matches Some(route) && route_sectors(route) == s,
                        None => r is None,
                    }
            },
        },
{
    let intel = VisibleHazardIntel {
        foreign_worlds: Vec::new(),
        foreign_starbases: Vec::new(),
        foreign_fleets: Vec::new(),
        hostile_blockades: Vec::new(),
        hostile_homeworlds: Vec::new(),
    };
    plan_route_with_intel(game_data, fleet_idx, &intel)
}

/// A byte lowered to ASCII lower case.
pub open spec fn ascii_lower(b: u8) -> u8 {
    if 65 <= b <= 90 {
        (b + 32) as u8
    } else {
        b
    }
}

/// The name reads `UNKNOWN`, in any ASCII case.
pub open spec fn names_unknown(name: Seq<u8>) -> bool {
    name.len() == 7 && ascii_lower(name[0]) == 117 && ascii_lower(name[1]) == 110 && ascii_lower(name[2])
        == 107 && ascii_lower(name[3]) == 110 && ascii_lower(name[4]) == 111 && ascii_lower(name[5]) == 119
        && ascii_lower(name[6]) == 110
}

/// The name a database record holds (see `planet_name_bytes`).
pub open spec fn database_name(raw: Seq<u8>) -> Seq<u8> {
    if 0 < raw[0] <= 14 {
        raw.subrange(1, 1 + raw[0])
    } else {
        Seq::empty()
    }
}

/// Position in `DATABASE.DAT` of the viewer's record of world `p`.
pub open spec fn viewer_record(viewer: u8, p: int) -> int {
    (if viewer == 0 { 0int } else { viewer - 1 }) * 20 + p
}

/// The viewer's database names world `p` and gives it an owner other than
/// the viewer.
pub open spec fn sighted_foreign(db: DatabaseDat, viewer: u8, p: int) -> bool {
    let ri = viewer_record(viewer, p);
    &&& 0 <= p < 20
    &&& ri < 80
    &&& database_name(db.records@[ri].raw@).len() > 0
    &&& !names_unknown(database_name(db.records@[ri].raw@))
    &&& db.records@[ri].raw@[0x15] != 0
    &&& db.records@[ri].raw@[0x15] != viewer
}

/// The sector of world `p`.
pub open spec fn world_sector(gd: CoreGameData, p: int) -> (int, int) {
    (gd.planets.records@[p].raw@[0] as int, gd.planets.records@[p].raw@[1] as int)
}

/// A foreign fleet blockades a world of the viewer.
pub open spec fn blockades_viewer(gd: CoreGameData, viewer: u8, i: int) -> bool {
    let f = gd.fleets.records@[i];
    &&& 0 <= i < gd.fleets.records@.len()
    &&& f.raw@[0x02] != 0
    &&& f.raw@[0x02] != viewer
    &&& order_kind_of(f.raw@[0x1F]) == FleetStandingOrderKind::GuardBlockadeWorld
    &&& exists|p: int|
        0 <= p < 20 && gd.planets.records@[p].raw@[0x5D] == viewer && world_sector(gd, p) == (
            f.raw@[0x0B] as int,
            f.raw@[0x0C] as int,
        )
}

/// No sector is listed twice.
pub open spec fn distinct_sectors(list: Seq<[u8; 2]>) -> bool {
    forall|i: int, j: int| 0 <= i < j < list.len() ==> sector(list[i]) != sector(list[j])
}

fn add_sector(list: &mut Vec<[u8; 2]>, c: [u8; 2])
    requires
        distinct_sectors(old(list)@),
    ensures
        distinct_sectors(final(list)@),
        forall|d: [u8; 2]| listed(final(list)@, d) <==> (listed(old(list)@, d) || sector(d) == sector(c)),
{
    if !list_contains(list, c) {
        let ghost before = list@;
        list.push(c);
        proof {
            assert forall|d: [u8; 2]| listed(list@, d) <==> (listed(before, d) || sector(d) == sector(c)) by {
                if sector(d) == sector(c) {
                    assert(sector(list@[before.len() as int]) == sector(d));
                }
                if listed(before, d) {
                    let i = choose|i: int| 0 <= i < before.len() && sector(before[i]) == sector(d);
                    assert(list@[i] == before[i]);
                }
                if listed(list@, d) {
                    let i = choose|i: int| 0 <= i < list@.len() && sector(list@[i]) == sector(d);
                    if i < before.len() {
                        assert(before[i] == list@[i]);
                    }
                }
            }
        }
    } else {
        proof {
            assert forall|d: [u8; 2]| sector(d) == sector(c) implies listed(list@, d) by {
                let i = choose|i: int| 0 <= i < list@.len() && sector(list@[i]) == sector(c);
            }
        }
    }
}

fn name_is_unknown(name: &[u8]) -> (r: bool)
    ensures
        r == names_unknown(name@),
{
    if name.len() != 7 {
        return false;
    }
    let target: [u8; 7] = [117, 110, 107, 110, 111, 119, 110];
    let mut i: usize = 0;
    while i < 7
        invariant
            i <= 7,
            name@.len() == 7,
            target@ == seq![117u8, 110, 107, 110, 111, 119, 110],
            forall|k: int| 0 <= k < i ==> ascii_lower(name@[k]) == target@[k],
        decreases 7 - i,
    {
        let b = name[i];
        let lower = if 65 <= b && b <= 90 {
            b + 32
        } else {
            b
        };
        if lower != target[i] {
            return false;
        }
        i = i + 1;
    }
    true
}

/// The viewer's record of world `p` marks it as a homeworld.
pub open spec fn marked_home(db: DatabaseDat, viewer: u8, p: int) -> bool {
    db.records@[viewer_record(viewer, p)].raw@[0x1c] == 100 || db.records@[viewer_record(viewer, p)].raw@[0x1d]
        == 100
}

/// Some world before `n` is a sighted foreign world at sector `s` (and, when
/// `home`, marked as a homeworld).
pub open spec fn sighted_upto(gd: CoreGameData, db: DatabaseDat, viewer: u8, n: int, s: (int, int), home: bool) -> bool {
    exists|q: int|
        q < n && sighted_foreign(db, viewer, q) && #[trigger] world_sector(gd, q) == s && (!home || marked_home(
            db,
            viewer,
            q,
        ))
}

fn scan_world(
    game_data: &CoreGameData,
    database: &DatabaseDat,
    viewer_empire_raw: u8,
    p: usize,
    worlds: &mut Vec<[u8; 2]>,
    homes: &mut Vec<[u8; 2]>,
)
    requires
        p < 20,
        distinct_sectors(old(worlds)@),
        distinct_sectors(old(homes)@),
        forall|c: [u8; 2]|
            listed(old(worlds)@, c) <==> sighted_upto(*game_data, *database, viewer_empire_raw, p as int, sector(c), false),
        forall|c: [u8; 2]|
            listed(old(homes)@, c) <==> sighted_upto(*game_data, *database, viewer_empire_raw, p as int, sector(c), true),
    ensures
        distinct_sectors(final(worlds)@),
        distinct_sectors(final(homes)@),
        forall|c: [u8; 2]|
            listed(final(worlds)@, c) <==> sighted_upto(*game_data, *database, viewer_empire_raw, p + 1, sector(c), false),
        forall|c: [u8; 2]|
            listed(final(homes)@, c) <==> sighted_upto(*game_data, *database, viewer_empire_raw, p + 1, sector(c), true),
{
    let viewer_idx: usize = if viewer_empire_raw == 0 {
        0
    } else {
        (viewer_empire_raw - 1) as usize
    };
    let record_idx = viewer_idx * 20 + p;
    let mut sighted = false;
    if record_idx < 80 {
        let record = &database.records[record_idx];
        let name = record.planet_name_bytes();
        let owner_raw = record.raw[0x15];
        if !(name_is_unknown(name) || name.len() == 0 || owner_raw == 0 || owner_raw == viewer_empire_raw) {
            sighted = true;
            let coords = game_data.planets.records[p].coords_raw();
            assert(sector(coords) == world_sector(*game_data, p as int));
            add_sector(worlds, coords);
            if record.raw[0x1c] == 100 || record.raw[0x1d] == 100 {
                add_sector(homes, coords);
            }
        }
    }
    proof {
        assert(sighted == sighted_foreign(*database, viewer_empire_raw, p as int));
        assert forall|c: [u8; 2]| #![trigger sector(c)]
            listed(worlds@, c) <==> sighted_upto(*game_data, *database, viewer_empire_raw, p + 1, sector(c), false) by {
            if sighted_upto(*game_data, *database, viewer_empire_raw, p + 1, sector(c), false) {
                let q = choose|q: int|
                    q < p + 1 && sighted_foreign(*database, viewer_empire_raw, q) && #[trigger] world_sector(*game_data, q)
                        == sector(c) && (!false || marked_home(*database, viewer_empire_raw, q));
                if q < p {
                    assert(sighted_upto(*game_data, *database, viewer_empire_raw, p as int, sector(c), false));
                }
            }
            if sighted_upto(*game_data, *database, viewer_empire_raw, p as int, sector(c), false) {
                let q = choose|q: int|
                    q < p && sighted_foreign(*database, viewer_empire_raw, q) && #[trigger] world_sector(*game_data, q)
                        == sector(c) && (!false || marked_home(*database, viewer_empire_raw, q));
                assert(q < p + 1);
            }
            if sighted && sector(c) == world_sector(*game_data, p as int) {
                assert(world_sector(*game_data, p as int) == sector(c));
            }
        }
        assert forall|c: [u8; 2]| #![trigger sector(c)]
            listed(homes@, c) <==> sighted_upto(*game_data, *database, viewer_empire_raw, p + 1, sector(c), true) by {
            if sighted_upto(*game_data, *database, viewer_empire_raw, p + 1, sector(c), true) {
                let q = choose|q: int|
                    q < p + 1 && sighted_foreign(*database, viewer_empire_raw, q) && #[trigger] world_sector(*game_data, q)
                        == sector(c) && (!true || marked_home(*database, viewer_empire_raw, q));
                if q < p {
                    assert(sighted_upto(*game_data, *database, viewer_empire_raw, p as int, sector(c), true));
                }
            }
            if sighted_upto(*game_data, *database, viewer_empire_raw, p as int, sector(c), true) {
                let q = choose|q: int|
                    q < p && sighted_foreign(*database, viewer_empire_raw, q) && #[trigger] world_sector(*game_data, q)
                        == sector(c) && (!true || marked_home(*database, viewer_empire_raw, q));
                assert(q < p + 1);
            }
            if sighted && marked_home(*database, viewer_empire_raw, p as int) && sector(c) == world_sector(
                *game_data,
                p as int,
            ) {
                assert(world_sector(*game_data, p as int) == sector(c));
            }
        }
    }
}

/// The hazards the viewer knows of from its own database: foreign worlds it
/// has sighted (named, not `UNKNOWN`, with an owner other than itself), those
/// of them marked as homeworlds, and the sectors of its own worlds that
/// foreign fleets blockade. Each sector is listed once; no starbases or
/// fleet contacts are listed.
pub fn visible_hazard_intel_from_database(game_data: &CoreGameData, database: &DatabaseDat, viewer_empire_raw: u8) -> (r:
    VisibleHazardIntel)
    ensures
        forall|c: [u8; 2]|
            listed(r.foreign_worlds@, c) <==> exists|p: int|
                sighted_foreign(*database, viewer_empire_raw, p) && #[trigger] world_sector(*game_data, p) == sector(c),
        forall|c: [u8; 2]|
            listed(r.hostile_homeworlds@, c) <==> exists|p: int|
                sighted_foreign(*database, viewer_empire_raw, p) && #[trigger] world_sector(*game_data, p) == sector(c)
                    && marked_home(*database, viewer_empire_raw, p),
        forall|c: [u8; 2]|
            listed(r.hostile_blockades@, c) <==> exists|i: int|
                blockades_viewer(*game_data, viewer_empire_raw, i) && (
                #[trigger] game_data.fleets.records@[i].raw@[0x0B] as int,
                game_data.fleets.records@[i].raw@[0x0C] as int,
            ) == sector(c),
        distinct_sectors(r.foreign_worlds@),
        distinct_sectors(r.hostile_homeworlds@),
        distinct_sectors(r.hostile_blockades@),
        r.foreign_starbases@.len() == 0,
        r.foreign_fleets@.len() == 0,
        r.well_formed(),
{
    let mut worlds: Vec<[u8; 2]> = Vec::new();
    let mut homes: Vec<[u8; 2]> = Vec::new();
    let mut p: usize = 0;
    while p < 20
        invariant
            p <= 20,
            distinct_sectors(worlds@),
            distinct_sectors(homes@),
            forall|c: [u8; 2]|
                listed(worlds@, c) <==> sighted_upto(*game_data, *database, viewer_empire_raw, p as int, sector(c), false),
            forall|c: [u8; 2]|
                listed(homes@, c) <==> sighted_upto(*game_data, *database, viewer_empire_raw, p as int, sector(c), true),
        decreases 20 - p,
    {
        scan_world(game_data, database, viewer_empire_raw, p, &mut worlds, &mut homes);
        p = p + 1;
    }
    let mut intel = VisibleHazardIntel {
        foreign_worlds: worlds,
        foreign_starbases: Vec::new(),
        foreign_fleets: Vec::new(),
        hostile_blockades: Vec::new(),
        hostile_homeworlds: homes,
    };
    proof {
        assert forall|c: [u8; 2]| #![trigger sector(c)]
            listed(intel.foreign_worlds@, c) <==> exists|q: int|
                sighted_foreign(*database, viewer_empire_raw, q) && #[trigger] world_sector(*game_data, q) == sector(c) by {
            if exists|q: int|
                sighted_foreign(*database, viewer_empire_raw, q) && #[trigger] world_sector(*game_data, q) == sector(c) {
                let q = choose|q: int|
                    sighted_foreign(*database, viewer_empire_raw, q) && #[trigger] world_sector(*game_data, q) == sector(c);
                assert(sighted_upto(*game_data, *database, viewer_empire_raw, 20, sector(c), false));
            }
        }
        assert forall|c: [u8; 2]| #![trigger sector(c)]
            listed(intel.hostile_homeworlds@, c) <==> exists|q: int|
                sighted_foreign(*database, viewer_empire_raw, q) && #[trigger] world_sector(*game_data, q) == sector(c)
                    && marked_home(*database, viewer_empire_raw, q) by {
            if exists|q: int|
                sighted_foreign(*database, viewer_empire_raw, q) && #[trigger] world_sector(*game_data, q) == sector(c)
                    && marked_home(*database, viewer_empire_raw, q) {
                let q = choose|q: int|
                    sighted_foreign(*database, viewer_empire_raw, q) && #[trigger] world_sector(*game_data, q) == sector(c)
                        && marked_home(*database, viewer_empire_raw, q);
                assert(sighted_upto(*game_data, *database, viewer_empire_raw, 20, sector(c), true));
            }
        }
    }
    let mut i: usize = 0;
    while i < game_data.fleets.records.len()
        invariant
            i <= game_data.fleets.records@.len(),
            distinct_sectors(intel.hostile_blockades@),
            distinct_sectors(intel.foreign_worlds@),
            distinct_sectors(intel.hostile_homeworlds@),
            intel.foreign_starbases@.len() == 0,
            intel.foreign_fleets@.len() == 0,
            forall|c: [u8; 2]|
                listed(intel.foreign_worlds@, c) <==> exists|q: int|
                    sighted_foreign(*database, viewer_empire_raw, q) && #[trigger] world_sector(*game_data, q) == sector(c),
            forall|c: [u8; 2]|
                listed(intel.hostile_homeworlds@, c) <==> exists|q: int|
                    sighted_foreign(*database, viewer_empire_raw, q) && #[trigger] world_sector(*game_data, q) == sector(c)
                        && marked_home(*database, viewer_empire_raw, q),
            forall|c: [u8; 2]|
                listed(intel.hostile_blockades@, c) <==> exists|k: int|
                    k < i && blockades_viewer(*game_data, viewer_empire_raw, k) && (
                    #[trigger] game_data.fleets.records@[k].raw@[0x0B] as int,
                    game_data.fleets.records@[k].raw@[0x0C] as int,
                ) == sector(c),
        decreases game_data.fleets.records@.len() - i,
    {
        let fleet = &game_data.fleets.records[i];
        let owner = fleet.owner_empire_raw();
        let blockading = match fleet.standing_order_kind() {
            FleetStandingOrderKind::GuardBlockadeWorld => true,
            _ => false,
        };
        let coords = fleet.current_location_coords_raw();
        let mut owned_here = false;
        let mut q: usize = 0;
        while q < 20
            invariant
                q <= 20,
                coords@ == fleet.raw@.subrange(0x0B, 0x0D),
                owned_here == exists|x: int|
                    0 <= x < q && game_data.planets.records@[x].raw@[0x5D] == viewer_empire_raw && #[trigger] world_sector(
                        *game_data,
                        x,
                    ) == (fleet.raw@[0x0B] as int, fleet.raw@[0x0C] as int),
            decreases 20 - q,
        {
            let pc = game_data.planets.records[q].coords_raw();
            if game_data.planets.records[q].owner_empire_slot_raw() == viewer_empire_raw && pc[0] == coords[0]
                && pc[1] == coords[1] {
                assert(world_sector(*game_data, q as int) == (fleet.raw@[0x0B] as int, fleet.raw@[0x0C] as int));
                owned_here = true;
            }
            q = q + 1;
        }
        let ghost before = intel.hostile_blockades@;
        if owner != 0 && owner != viewer_empire_raw && blockading && owned_here {
            assert(blockades_viewer(*game_data, viewer_empire_raw, i as int));
            add_sector(&mut intel.hostile_blockades, coords);
            proof {
                assert forall|c: [u8; 2]| listed(intel.hostile_blockades@, c) <==> exists|k: int|
                    k < i + 1 && blockades_viewer(*game_data, viewer_empire_raw, k) && (
                    #[trigger] game_data.fleets.records@[k].raw@[0x0B] as int,
                    game_data.fleets.records@[k].raw@[0x0C] as int,
                ) == sector(c) by {
                    if sector(c) == sector(coords) {
                        assert((game_data.fleets.records@[i as int].raw@[0x0B] as int, game_data.fleets.records@[i as int].raw@[0x0C] as int) == sector(c));
                    }
                }
            }
        } else {
            proof {
                assert(!blockades_viewer(*game_data, viewer_empire_raw, i as int));
                assert forall|c: [u8; 2]| listed(intel.hostile_blockades@, c) <==> exists|k: int|
                    k < i + 1 && blockades_viewer(*game_data, viewer_empire_raw, k) && (
                    #[trigger] game_data.fleets.records@[k].raw@[0x0B] as int,
                    game_data.fleets.records@[k].raw@[0x0C] as int,
                ) == sector(c) by {
                    if exists|k: int|
                        k < i + 1 && blockades_viewer(*game_data, viewer_empire_raw, k) && (
                        #[trigger] game_data.fleets.records@[k].raw@[0x0B] as int,
                        game_data.fleets.records@[k].raw@[0x0C] as int,
                    ) == sector(c) {
                        let k = choose|k: int|
                            k < i + 1 && blockades_viewer(*game_data, viewer_empire_raw, k) && (
                            #[trigger] game_data.fleets.records@[k].raw@[0x0B] as int,
                            game_data.fleets.records@[k].raw@[0x0C] as int,
                        ) == sector(c);
                        assert(k < i);
                    }
                }
            }
        }
        i = i + 1;
    }
    intel
}

} // verus!
