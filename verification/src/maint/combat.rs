//! Combat arithmetic: ship classes and their strengths, combat efficiency,
//! hits, how hits wear down a task force, and the rules of engagement.
use crate::game::{stored_relation, CoreGameData};
use crate::maint::economics::friendly_starbase;
use crate::maint::events::{
    ContactReportSource, DiplomacyOverride, EncounterDispositionEvent, FleetBattleEvent, FleetBattlePerspective,
    FleetDestroyedEvent, Mission, MissionEvent, ScoutContactEvent, ShipLosses, StarbaseDestroyedEvent,
};
use crate::records::bytes::le16;
use crate::records::base::BaseRecord;
use crate::records::bytes::{lemma_put16_get16, put16};
use crate::records::fleet::{fleet_raws, order_kind_of, FleetRecord, FleetStandingOrderKind};
use crate::records::planet::PlanetRecord;
use crate::records::player::{DiplomaticRelation, PlayerRecord};
use vstd::prelude::*;

verus! {

/// Class slots of a combat state: destroyers, cruisers, battleships,
/// starbases, scouts, troop transports, ETACs.
pub const IDX_DD: usize = 0;
pub const IDX_CA: usize = 1;
pub const IDX_BB: usize = 2;
pub const IDX_SB: usize = 3;
pub const IDX_SC: usize = 4;
pub const IDX_TT: usize = 5;
pub const IDX_ET: usize = 6;

/// Attack strength per hull.
pub const AS_DD: u32 = 1;
pub const AS_CA: u32 = 3;
pub const AS_BB: u32 = 9;
pub const AS_SB: u32 = 10;

/// Defence strength per hull.
pub const DS_DD: u32 = 1;
pub const DS_CA: u32 = 3;
pub const DS_BB: u32 = 10;
pub const DS_SB: u32 = 12;
pub const DS_SC: u32 = 1;
pub const DS_TT: u32 = 1;
pub const DS_ET: u32 = 2;

/// Attack strength of a ground battery and of an army.
pub const GROUND_AS_BATTERY: u32 = 9;
pub const GROUND_AS_ARMY: u32 = 1;

/// Why two empires' forces fight.
#[derive(Clone, Copy, Debug, PartialEq, Eq, Structural)]
pub enum HostilityReason {
    DeclaredEnemy,
    DefendedSystemEntry,
    PatrolContact,
}

/// A fleet entering a defended system must fight; other hostilities leave
/// room for the rules of engagement.
pub fn hostility_requires_forced_engagement(reason: HostilityReason) -> (r: bool)
    ensures
        r == (reason == HostilityReason::DefendedSystemEntry),
{
    match reason {
        HostilityReason::DefendedSystemEntry => true,
        _ => false,
    }
}

/// Hulls per class, and "fresh" steps per class that absorb hits before
/// any hull is lost.
#[derive(Clone, Debug, Default)]
pub struct FleetCombatState {
    pub counts: [u32; 7],
    pub fresh: [u32; 7],
}

/// Attack strength of a state's warships and starbases.
pub open spec fn combat_as(counts: Seq<u32>) -> int {
    counts[0] * 1 + counts[1] * 3 + counts[2] * 9 + counts[3] * 10
}

/// Each hull adds its attack strength: a destroyer (class 0) 1, a cruiser
/// (1) 3, a battleship (2) 9, a starbase (3) 10; scouts, transports and
/// colony ships (4 to 6) add none.
pub proof fn lemma_attack_strength_weights(c: Seq<u32>, d: Seq<u32>, k: int)
    requires
        c.len() == 7,
        d.len() == 7,
        0 <= k < 7,
        d[k] == c[k] + 1,
        forall|j: int| 0 <= j < 7 && j != k ==> d[j] == c[j],
    ensures
        combat_as(d) - combat_as(c) == (if k == 0 {
            1int
        } else if k == 1 {
            3
        } else if k == 2 {
            9
        } else if k == 3 {
            10
        } else {
            0
        }),
        combat_as(c) >= 0,
{
}

impl FleetCombatState {
    /// Attack strength of the destroyers, cruisers, battleships and starbases.
    pub fn total_combat_as(&self) -> (r: u32)
        requires
            combat_as(self.counts@) <= u32::MAX,
        ensures
            r == combat_as(self.counts@),
    {
        self.counts[IDX_DD] * AS_DD + self.counts[IDX_CA] * AS_CA + self.counts[IDX_BB] * AS_BB
            + self.counts[IDX_SB] * AS_SB
    }

    /// At least two of destroyers, cruisers and battleships are present.
    pub fn is_mixed(&self) -> (r: bool)
        ensures
            r == ((if self.counts@[0] > 0 { 1int } else { 0 }) + (if self.counts@[1] > 0 {
                1int
            } else {
                0
            }) + (if self.counts@[2] > 0 { 1int } else { 0 }) >= 2),
    {
        let mut kinds: u32 = 0;
        if self.counts[IDX_DD] > 0 {
            kinds = kinds + 1;
        }
        if self.counts[IDX_CA] > 0 {
            kinds = kinds + 1;
        }
        if self.counts[IDX_BB] > 0 {
            kinds = kinds + 1;
        }
        kinds >= 2
    }

    /// Some class has a hull left.
    pub fn has_units(&self) -> (r: bool)
        ensures
            r == exists|k: int| 0 <= k < 7 && self.counts@[k] > 0,
    {
        let mut k: usize = 0;
        while k < 7
            invariant
                k <= 7,
                forall|j: int| 0 <= j < k ==> self.counts@[j] == 0,
            decreases 7 - k,
        {
            if self.counts[k] > 0 {
                return true;
            }
            k = k + 1;
        }
        false
    }
}

/// `ceil(a / b)` for a positive `b`.
pub open spec fn ceil_div(a: int, b: int) -> int {
    (a + b - 1) / b
}

/// Fresh steps per hull of a class with defence strength `ds`: one per six
/// points of defence, rounded up, at least one.
pub fn fresh_steps_for_ds(ds: u32) -> (r: u32)
    ensures
        r == if ceil_div(ds as int, 6) > 1 { ceil_div(ds as int, 6) } else { 1 },
        r >= 1,
        6 * r >= ds,
        r == 1 || 6 * (r - 1) < ds,
{
    let steps = ds / 6 + if ds % 6 != 0 {
        1
    } else {
        0
    };
    if steps > 1 {
        steps
    } else {
        1
    }
}

/// Order in which classes absorb and lose hits.
pub fn fleet_combat_priority() -> (r: [usize; 7])
    ensures
        r@ == seq![0usize, 1, 2, 3, 4, 5, 6],
{
    let r = [IDX_DD, IDX_CA, IDX_BB, IDX_SB, IDX_SC, IDX_TT, IDX_ET];
    assert(r@ =~= seq![0usize, 1, 2, 3, 4, 5, 6]);
    r
}

/// `x * k`, saturating at `u32::MAX`.
pub open spec fn sat_mul(x: u32, k: int) -> int {
    if x * k > u32::MAX {
        u32::MAX as int
    } else {
        x * k
    }
}

/// `x * k`, saturating at `u32::MAX` (what `u32::saturating_mul` returns).
fn saturating_mul(x: u32, k: u32) -> (r: u32)
    ensures
        r == sat_mul(x, k as int),
{
    match x.checked_mul(k) {
        Some(v) => v,
        None => u32::MAX,
    }
}

/// Whether rules of engagement `roe` let a force with attack strength
/// `friendly_as` fight one of `enemy_as`: 0 never; 1 only an unarmed enemy;
/// 2..=9 from four-to-one odds down to one-to-three; 10 and above always.
pub open spec fn roe_allows(roe: u8, friendly_as: u32, enemy_as: u32) -> bool {
    if roe == 0 {
        false
    } else if roe == 1 {
        enemy_as == 0
    } else if roe == 2 {
        friendly_as >= sat_mul(enemy_as, 4)
    } else if roe == 3 {
        friendly_as >= sat_mul(enemy_as, 3)
    } else if roe == 4 {
        friendly_as >= sat_mul(enemy_as, 2)
    } else if roe == 5 {
        sat_mul(friendly_as, 2) >= sat_mul(enemy_as, 3)
    } else if roe == 6 {
        friendly_as >= enemy_as
    } else if roe == 7 {
        sat_mul(friendly_as, 3) >= sat_mul(enemy_as, 2)
    } else if roe == 8 {
        sat_mul(friendly_as, 2) >= enemy_as
    } else if roe == 9 {
        sat_mul(friendly_as, 3) >= enemy_as
    } else {
        true
    }
}

/// Checks rules of engagement `roe` against the odds.
pub fn rule_threshold_satisfied(roe: u8, friendly_as: u32, enemy_as: u32) -> (r: bool)
    ensures
        r == roe_allows(roe, friendly_as, enemy_as),
{
    match roe {
        0 => false,
        1 => enemy_as == 0,
        2 => friendly_as >= saturating_mul(enemy_as, 4),
        3 => friendly_as >= saturating_mul(enemy_as, 3),
        4 => friendly_as >= saturating_mul(enemy_as, 2),
        5 => saturating_mul(friendly_as, 2) >= saturating_mul(enemy_as, 3),
        6 => friendly_as >= enemy_as,
        7 => saturating_mul(friendly_as, 3) >= saturating_mul(enemy_as, 2),
        8 => saturating_mul(friendly_as, 2) >= enemy_as,
        9 => saturating_mul(friendly_as, 3) >= enemy_as,
        _ => true,
    }
}

/// Space combat efficiency in percent: 150 against no opposition, else by
/// the odds from 50 (outgunned two to one) to 150 (three to one ahead),
/// plus 25 for a mixed fleet and 25 for starbase support, capped at 150.
pub open spec fn space_cer(our_as: u32, enemy_as: u32, mixed: bool, starbase_bonus: bool) -> int {
    let base: int = if enemy_as == 0 {
        150
    } else if sat_mul(our_as, 2) < enemy_as {
        50
    } else if our_as < enemy_as {
        75
    } else if sat_mul(our_as, 2) < sat_mul(enemy_as, 3) {
        100
    } else if our_as < sat_mul(enemy_as, 3) {
        125
    } else {
        150
    };
    let total = base + (if mixed { 25int } else { 0 }) + (if starbase_bonus { 25int } else { 0 });
    if total > 150 {
        150
    } else {
        total
    }
}

/// Space combat efficiency by the odds, for strengths too small to
/// saturate: with no bonus it is 150 against no opposition, 50 when
/// outgunned more than two to one, 75 when outgunned up to two to one, 100
/// from even odds up to 3:2, 125 from 3:2 up to 3:1 and 150 from 3:1 on;
/// each bonus adds 25, and the total never passes 150.
pub proof fn lemma_space_cer_bands(our_as: u32, enemy_as: u32, mixed: bool, starbase_bonus: bool)
    requires
        our_as <= 1_431_655_765,
        enemy_as <= 1_431_655_765,
    ensures
        enemy_as == 0 ==> space_cer(our_as, enemy_as, false, false) == 150,
        enemy_as > 0 && 2 * our_as < enemy_as ==> space_cer(our_as, enemy_as, false, false) == 50,
        enemy_as > 0 && enemy_as <= 2 * our_as && our_as < enemy_as ==> space_cer(our_as, enemy_as, false, false)
            == 75,
        enemy_as > 0 && enemy_as <= our_as && 2 * our_as < 3 * enemy_as ==> space_cer(our_as, enemy_as, false, false)
            == 100,
        enemy_as > 0 && 3 * enemy_as <= 2 * our_as && our_as < 3 * enemy_as ==> space_cer(
            our_as,
            enemy_as,
            false,
            false,
        ) == 125,
        enemy_as > 0 && 3 * enemy_as <= our_as ==> space_cer(our_as, enemy_as, false, false) == 150,
        space_cer(our_as, enemy_as, mixed, starbase_bonus) == if space_cer(our_as, enemy_as, false, false) + (
        if mixed {
            25int
        } else {
            0
        }) + (if starbase_bonus {
            25int
        } else {
            0
        }) > 150 {
            150
        } else {
            space_cer(our_as, enemy_as, false, false) + (if mixed {
                25int
            } else {
                0
            }) + (if starbase_bonus {
                25int
            } else {
                0
            })
        },
{
}

/// Ground combat efficiency by the odds, for strengths too small to
/// saturate: with no bonus it is 200 against no defence, 50 when outgunned
/// more than two to one, 100 when outgunned up to two to one, 150 from even
/// odds up to 2:1 and 200 from 2:1 on.
pub proof fn lemma_ground_cer_bands(our_as: u32, enemy_as: u32)
    requires
        our_as <= 2_147_483_647,
        enemy_as <= 2_147_483_647,
    ensures
        enemy_as == 0 ==> ground_cer(our_as, enemy_as, 0) == 200,
        enemy_as > 0 && 2 * our_as < enemy_as ==> ground_cer(our_as, enemy_as, 0) == 50,
        enemy_as > 0 && enemy_as <= 2 * our_as && our_as < enemy_as ==> ground_cer(our_as, enemy_as, 0) == 100,
        enemy_as > 0 && enemy_as <= our_as && our_as < 2 * enemy_as ==> ground_cer(our_as, enemy_as, 0) == 150,
        enemy_as > 0 && 2 * enemy_as <= our_as ==> ground_cer(our_as, enemy_as, 0) == 200,
{
}

/// What each rule of engagement asks of the odds, for strengths too small
/// to saturate: 0 never fights, 1 only an unarmed enemy, 2 at 4:1, 3 at
/// 3:1, 4 at 2:1, 5 at 3:2, 6 at even odds, 7 at 2:3, 8 at 1:2, 9 at 1:3,
/// and 10 or more always.
pub proof fn lemma_roe_thresholds(roe: u8, f: u32, e: u32)
    requires
        f <= 1_073_741_823,
        e <= 1_073_741_823,
    ensures
        roe_allows(roe, f, e) == if roe == 0 {
            false
        } else if roe == 1 {
            e == 0
        } else if roe == 2 {
            f >= 4 * e
        } else if roe == 3 {
            f >= 3 * e
        } else if roe == 4 {
            f >= 2 * e
        } else if roe == 5 {
            2 * f >= 3 * e
        } else if roe == 6 {
            f >= e
        } else if roe == 7 {
            3 * f >= 2 * e
        } else if roe == 8 {
            2 * f >= e
        } else if roe == 9 {
            3 * f >= e
        } else {
            true
        },
{
}

/// Space combat efficiency in percent.
pub fn space_cer_percent(our_as: u32, enemy_as: u32, mixed: bool, starbase_bonus: bool) -> (r: u32)
    ensures
        r == space_cer(our_as, enemy_as, mixed, starbase_bonus),
        25 <= r <= 150,
{
    let mut cer: u32 = if enemy_as == 0 {
        150
    } else if saturating_mul(our_as, 2) < enemy_as {
        50
    } else if our_as < enemy_as {
        75
    } else if saturating_mul(our_as, 2) < saturating_mul(enemy_as, 3) {
        100
    } else if our_as < saturating_mul(enemy_as, 3) {
        125
    } else {
        150
    };
    if mixed {
        cer = cer + 25;
    }
    if starbase_bonus {
        cer = cer + 25;
    }
    if cer < 25 {
        25
    } else if cer > 150 {
        150
    } else {
        cer
    }
}

/// Ground combat efficiency in percent: 200 against no defence, else by
/// the odds from 50 to 200, shifted by `bonus` hundreds, kept in 50..=200.
pub open spec fn ground_cer(our_as: u32, enemy_as: u32, bonus: i32) -> int {
    let base: int = if enemy_as == 0 {
        200
    } else if sat_mul(our_as, 2) < enemy_as {
        50
    } else if our_as < enemy_as {
        100
    } else if our_as < sat_mul(enemy_as, 2) {
        150
    } else {
        200
    };
    let v = base + bonus * 100;
    if v < 50 {
        50
    } else if v > 200 {
        200
    } else {
        v
    }
}

/// Ground combat efficiency in percent.
pub fn ground_cer_percent(our_as: u32, enemy_as: u32, bonus: i32) -> (r: u32)
    requires
        -21_474_830 <= bonus <= 21_474_830,
    ensures
        r == ground_cer(our_as, enemy_as, bonus),
        50 <= r <= 200,
{
    let base: i32 = if enemy_as == 0 {
        200
    } else if saturating_mul(our_as, 2) < enemy_as {
        50
    } else if our_as < enemy_as {
        100
    } else if our_as < saturating_mul(enemy_as, 2) {
        150
    } else {
        200
    };
    let v = base + bonus * 100;
    (if v < 50 {
        50
    } else if v > 200 {
        200
    } else {
        v
    }) as u32
}

/// Pursuit fire is a hasty shot at half efficiency.
pub fn pursuit_cer_percent() -> (r: u32)
    ensures
        r == 50,
{
    50
}

/// Hits scored by attack strength `as_total` at efficiency `cer` percent,
/// rounded up (the product saturating).
pub open spec fn hits_scored(as_total: u32, cer_percent: u32) -> int {
    ceil_div(sat_mul(as_total, cer_percent as int), 100)
}

/// Hits scored are the attack strength times the efficiency percent,
/// divided by 100 and rounded up (for products that fit 32 bits): enough
/// hundreds to cover the product, and not one more.
pub proof fn lemma_hits_round_up(as_total: u32, cer_percent: u32)
    requires
        as_total * cer_percent <= u32::MAX,
    ensures
        100 * hits_scored(as_total, cer_percent) >= as_total * cer_percent,
        100 * (hits_scored(as_total, cer_percent) - 1) < as_total * cer_percent,
        hits_scored(as_total, cer_percent) >= 0,
{
    let p = as_total * cer_percent;
    assert(hits_scored(as_total, cer_percent) == (p + 99) / 100);
}


/// Hits scored by `as_total` at `cer_percent` percent efficiency.
pub fn hits_from(as_total: u32, cer_percent: u32) -> (r: u32)
    ensures
        r == hits_scored(as_total, cer_percent),
        as_total * cer_percent <= u32::MAX ==> 100 * r >= as_total * cer_percent && 100 * (r - 1) < as_total
            * cer_percent,
{
    proof {
        if as_total * cer_percent <= u32::MAX {
            lemma_hits_round_up(as_total, cer_percent);
        }
    }
    let product = saturating_mul(as_total, cer_percent);
    product / 100 + if product % 100 != 0 {
        1
    } else {
        0
    }
}

// ---------------------------------------------------------------------------
// Taking hits
// ---------------------------------------------------------------------------

/// Sum of the first `k` entries of `v`.
pub open spec fn prefix_sum(v: Seq<u32>, k: int) -> int
    decreases k,
{
    if k <= 0 {
        0
    } else {
        prefix_sum(v, k - 1) + v[k - 1]
    }
}

/// `v` after `hits` are taken from its entries in order, each entry giving
/// up all it has before the next is touched.
pub open spec fn absorb(v: Seq<u32>, hits: int) -> Seq<u32> {
    Seq::new(
        v.len(),
        |k: int|
            {
                let want = hits - prefix_sum(v, k);
                (v[k] - (if want <= 0 {
                    0
                } else if want >= v[k] {
                    v[k] as int
                } else {
                    want
                })) as u32
            },
    )
}

/// Hits left over once `v` has absorbed all it can.
pub open spec fn hits_left(v: Seq<u32>, hits: int) -> int {
    if hits > prefix_sum(v, v.len() as int) {
        hits - prefix_sum(v, v.len() as int)
    } else {
        0
    }
}

proof fn lemma_prefix_sum_nonneg(v: Seq<u32>, k: int)
    requires
        0 <= k <= v.len(),
    ensures
        0 <= prefix_sum(v, k),
        forall|j: int| 0 <= j <= k ==> prefix_sum(v, j) <= prefix_sum(v, k),
    decreases k,
{
    if k > 0 {
        lemma_prefix_sum_nonneg(v, k - 1);
    }
}

/// Removes `hits` from `v` in class order; returns the hits left over.
fn absorb_hits(v: &mut [u32; 7], hits: u32) -> (left: u32)
    ensures
        final(v)@ == absorb(old(v)@, hits as int),
        left == hits_left(old(v)@, hits as int),
{
    let ghost v0 = v@;
    let mut hits = hits;
    let ghost h0 = hits as int;
    let mut k: usize = 0;
    while k < 7
        invariant
            k <= 7,
            v@.len() == 7,
            v0.len() == 7,
            hits == if h0 > prefix_sum(v0, k as int) { h0 - prefix_sum(v0, k as int) } else { 0 },
            forall|j: int| 0 <= j < k ==> v@[j] == absorb(v0, h0)[j],
            forall|j: int| k <= j < 7 ==> v@[j] == v0[j],
        decreases 7 - k,
    {
        proof {
            lemma_prefix_sum_nonneg(v0, k as int);
        }
        let loss = if hits < v[k] {
            hits
        } else {
            v[k]
        };
        v[k] = v[k] - loss;
        hits = hits - loss;
        k = k + 1;
    }
    assert(v@ =~= absorb(v0, h0));
    hits
}

/// Applies `hits` to a combat state: first every class's fresh steps are
/// worn down in class order, without losing a hull; the hits left then
/// destroy hulls in the same order.
pub fn apply_hits_to_fleet(state: &mut FleetCombatState, hits: u32)
    ensures
        final(state).fresh@ == absorb(old(state).fresh@, hits as int),
        final(state).counts@ == absorb(old(state).counts@, hits_left(old(state).fresh@, hits as int)),
{
    let left = absorb_hits(&mut state.fresh, hits);
    absorb_hits(&mut state.counts, left);
}

/// Sum of all entries.
pub open spec fn total(v: Seq<u32>) -> int {
    prefix_sum(v, v.len() as int)
}

proof fn lemma_absorb_prefix(v: Seq<u32>, hits: int, k: int)
    requires
        0 <= k <= v.len(),
        hits >= 0,
    ensures
        prefix_sum(absorb(v, hits), k) == prefix_sum(v, k) - (if hits < prefix_sum(v, k) {
            hits
        } else {
            prefix_sum(v, k)
        }),
    decreases k,
{
    if k > 0 {
        lemma_absorb_prefix(v, hits, k - 1);
        lemma_prefix_sum_nonneg(v, k);
    }
}

/// Absorbing takes exactly as many points as there are hits, or all there
/// is.
pub proof fn lemma_absorb_total(v: Seq<u32>, hits: int)
    requires
        hits >= 0,
    ensures
        absorb(v, hits).len() == v.len(),
        total(absorb(v, hits)) == total(v) - (if hits < total(v) { hits } else { total(v) }),
        forall|k: int| 0 <= k < v.len() ==> #[trigger] absorb(v, hits)[k] <= v[k],
{
    lemma_absorb_prefix(v, hits, v.len() as int);
}

/// A volley no larger than the fresh steps destroys no hull; otherwise the
/// fresh steps are all gone and the rest of the volley falls on the hulls.
/// In all, the state loses as many points as there are hits, or all it has.
pub proof fn lemma_hits_screen_then_kill(fresh: Seq<u32>, counts: Seq<u32>, hits: int)
    requires
        hits >= 0,
    ensures
        hits <= total(fresh) ==> absorb(counts, hits_left(fresh, hits)) == counts,
        hits >= total(fresh) ==> total(absorb(fresh, hits)) == 0,
        total(absorb(fresh, hits)) + total(absorb(counts, hits_left(fresh, hits))) == total(fresh)
            + total(counts) - (if hits < total(fresh) + total(counts) {
            hits
        } else {
            total(fresh) + total(counts)
        }),
{
    lemma_absorb_total(fresh, hits);
    lemma_absorb_total(counts, hits_left(fresh, hits));
    lemma_prefix_sum_nonneg(fresh, fresh.len() as int);
    lemma_prefix_sum_nonneg(counts, counts.len() as int);
    if hits <= total(fresh) {
        assert(absorb(counts, 0) =~= counts) by {
            assert forall|k: int| 0 <= k < counts.len() implies absorb(counts, 0)[k] == counts[k] by {
                lemma_prefix_sum_nonneg(counts, k);
            }
        }
    }
}

// ---------------------------------------------------------------------------
// Combat states from fleets
// ---------------------------------------------------------------------------

/// Hulls of class `k` in a fleet record (starbases are not fleet hulls).
pub open spec fn fleet_class_count(f: FleetRecord, k: int) -> int {
    if k == 0 {
        le16(f.raw@, 0x2A) as int
    } else if k == 1 {
        le16(f.raw@, 0x28) as int
    } else if k == 2 {
        le16(f.raw@, 0x26) as int
    } else if k == 4 {
        f.raw@[0x24] as int
    } else if k == 5 {
        le16(f.raw@, 0x2C) as int
    } else if k == 6 {
        le16(f.raw@, 0x30) as int
    } else {
        0
    }
}

/// Hulls of class `k` in the listed fleets.
pub open spec fn listed_class_count(fleets: Seq<FleetRecord>, idx: Seq<usize>, k: int) -> int
    decreases idx.len(),
{
    if idx.len() == 0 {
        0
    } else {
        listed_class_count(fleets, idx.drop_last(), k) + fleet_class_count(fleets[idx.last() as int], k)
    }
}

/// Fresh steps per hull of each class (from its defence strength).
pub open spec fn fresh_per_hull(k: int) -> int {
    if k == 2 || k == 3 {
        2
    } else {
        1
    }
}

proof fn lemma_listed_count_bound(fleets: Seq<FleetRecord>, idx: Seq<usize>, k: int)
    ensures
        0 <= listed_class_count(fleets, idx, k) <= idx.len() * 65535,
    decreases idx.len(),
{
    if idx.len() > 0 {
        lemma_listed_count_bound(fleets, idx.drop_last(), k);
    }
}

/// The combat state of the listed fleets with `starbases` starbases in
/// support: hulls summed per class, each with its fresh steps.
pub fn fleet_state_from_records(
    game_data: &CoreGameData,
    fleet_indices: &[usize],
    starbases: u32,
) -> (r: FleetCombatState)
    requires
        forall|i: int|
            0 <= i < fleet_indices@.len() ==> #[trigger] fleet_indices@[i]
                < game_data.fleets.records@.len(),
        fleet_indices@.len() < 32768,
        starbases < 0x8000_0000,
    ensures
        forall|k: int|
            0 <= k < 7 && k != 3 ==> #[trigger] r.counts@[k] == listed_class_count(
                game_data.fleets.records@,
                fleet_indices@,
                k,
            ),
        r.counts@[3] == starbases,
        forall|k: int| 0 <= k < 7 ==> #[trigger] r.fresh@[k] == r.counts@[k] * fresh_per_hull(k),
{
    let fleets = &game_data.fleets.records;
    let mut counts: [u32; 7] = [0; 7];
    let mut i: usize = 0;
    while i < fleet_indices.len()
        invariant
            i <= fleet_indices@.len() < 32768,
            fleets@ == game_data.fleets.records@,
            forall|t: int| 0 <= t < fleet_indices@.len() ==> #[trigger] fleet_indices@[t] < fleets@.len(),
            counts@.len() == 7,
            counts@[3] == 0,
            forall|k: int|
                0 <= k < 7 && k != 3 ==> #[trigger] counts@[k] == listed_class_count(
                    fleets@,
                    fleet_indices@.take(i as int),
                    k,
                ),
        decreases fleet_indices@.len() - i,
    {
        let f = &fleets[fleet_indices[i]];
        proof {
            assert(fleet_indices@.take(i + 1).drop_last() =~= fleet_indices@.take(i as int));
            assert(fleet_indices@.take(i + 1).last() == fleet_indices@[i as int]);
            assert forall|k: int| 0 <= k < 7 implies #[trigger] listed_class_count(
                fleets@,
                fleet_indices@.take(i + 1),
                k,
            ) <= (i + 1) * 65535 by {
                lemma_listed_count_bound(fleets@, fleet_indices@.take(i + 1), k);
            }
            assert((i + 1) * 65535 <= 32768 * 65535);
            assert(listed_class_count(fleets@, fleet_indices@.take(i + 1), 0) == counts@[0] + fleet_class_count(*f, 0));
            assert(listed_class_count(fleets@, fleet_indices@.take(i + 1), 1) == counts@[1] + fleet_class_count(*f, 1));
            assert(listed_class_count(fleets@, fleet_indices@.take(i + 1), 2) == counts@[2] + fleet_class_count(*f, 2));
            assert(listed_class_count(fleets@, fleet_indices@.take(i + 1), 4) == counts@[4] + fleet_class_count(*f, 4));
            assert(listed_class_count(fleets@, fleet_indices@.take(i + 1), 5) == counts@[5] + fleet_class_count(*f, 5));
            assert(listed_class_count(fleets@, fleet_indices@.take(i + 1), 6) == counts@[6] + fleet_class_count(*f, 6));
        }
        counts[IDX_DD] = counts[IDX_DD] + f.destroyer_count() as u32;
        counts[IDX_CA] = counts[IDX_CA] + f.cruiser_count() as u32;
        counts[IDX_BB] = counts[IDX_BB] + f.battleship_count() as u32;
        counts[IDX_SC] = counts[IDX_SC] + f.scout_count() as u32;
        counts[IDX_TT] = counts[IDX_TT] + f.troop_transport_count() as u32;
        counts[IDX_ET] = counts[IDX_ET] + f.etac_count() as u32;
        i = i + 1;
    }
    assert(fleet_indices@.take(i as int) =~= fleet_indices@);
    proof {
        assert forall|k: int| 0 <= k < 7 implies #[trigger] listed_class_count(fleets@, fleet_indices@, k)
            <= 32767 * 65535 by {
            lemma_listed_count_bound(fleets@, fleet_indices@, k);
        }
        assert(counts@[2] <= 32767 * 65535);
    }
    counts[IDX_SB] = starbases;
    assert(counts@[3] == starbases);
    let dd_steps = fresh_steps_for_ds(DS_DD);
    let ca_steps = fresh_steps_for_ds(DS_CA);
    let bb_steps = fresh_steps_for_ds(DS_BB);
    let sb_steps = fresh_steps_for_ds(DS_SB);
    let sc_steps = fresh_steps_for_ds(DS_SC);
    let tt_steps = fresh_steps_for_ds(DS_TT);
    let et_steps = fresh_steps_for_ds(DS_ET);
    assert(dd_steps == 1 && ca_steps == 1 && bb_steps == 2 && sb_steps == 2);
    assert(sc_steps == 1 && tt_steps == 1 && et_steps == 1);
    let fresh = [
        counts[IDX_DD] * dd_steps,
        counts[IDX_CA] * ca_steps,
        counts[IDX_BB] * bb_steps,
        counts[IDX_SB] * sb_steps,
        counts[IDX_SC] * sc_steps,
        counts[IDX_TT] * tt_steps,
        counts[IDX_ET] * et_steps,
    ];
    FleetCombatState { counts, fresh }
}

/// Losses between two states of the same force, per class (never below
/// zero).
pub open spec fn sub_or_zero(a: u32, b: u32) -> u32 {
    if a > b {
        (a - b) as u32
    } else {
        0
    }
}

/// Ships lost between `before` and `after`, per class.
pub fn ship_losses_from_states(before: &FleetCombatState, after: &FleetCombatState) -> (r: ShipLosses)
    ensures
        r.destroyers == sub_or_zero(before.counts@[0], after.counts@[0]),
        r.cruisers == sub_or_zero(before.counts@[1], after.counts@[1]),
        r.battleships == sub_or_zero(before.counts@[2], after.counts@[2]),
        r.scouts == sub_or_zero(before.counts@[4], after.counts@[4]),
        r.transports == sub_or_zero(before.counts@[5], after.counts@[5]),
        r.etacs == sub_or_zero(before.counts@[6], after.counts@[6]),
{
    ShipLosses {
        destroyers: before.counts[IDX_DD].saturating_sub(after.counts[IDX_DD]),
        cruisers: before.counts[IDX_CA].saturating_sub(after.counts[IDX_CA]),
        battleships: before.counts[IDX_BB].saturating_sub(after.counts[IDX_BB]),
        scouts: before.counts[IDX_SC].saturating_sub(after.counts[IDX_SC]),
        transports: before.counts[IDX_TT].saturating_sub(after.counts[IDX_TT]),
        etacs: before.counts[IDX_ET].saturating_sub(after.counts[IDX_ET]),
    }
}

/// The ships of a state, per class.
pub fn ship_counts_from_state(state: &FleetCombatState) -> (r: ShipLosses)
    ensures
        r.destroyers == state.counts@[0],
        r.cruisers == state.counts@[1],
        r.battleships == state.counts@[2],
        r.scouts == state.counts@[4],
        r.transports == state.counts@[5],
        r.etacs == state.counts@[6],
{
    ShipLosses {
        destroyers: state.counts[IDX_DD],
        cruisers: state.counts[IDX_CA],
        battleships: state.counts[IDX_BB],
        scouts: state.counts[IDX_SC],
        transports: state.counts[IDX_TT],
        etacs: state.counts[IDX_ET],
    }
}

/// Small (destroyers, scouts, transports, ETACs), medium (cruisers) and
/// large (battleships) hulls of a state.
pub fn vessel_size_summary(state: &FleetCombatState) -> (r: (u32, u32, u32))
    requires
        state.counts@[0] + state.counts@[4] + state.counts@[5] + state.counts@[6] <= u32::MAX,
    ensures
        r.0 == state.counts@[0] + state.counts@[4] + state.counts@[5] + state.counts@[6],
        r.1 == state.counts@[1],
        r.2 == state.counts@[2],
{
    let small = state.counts[IDX_DD] + state.counts[IDX_SC] + state.counts[IDX_TT]
        + state.counts[IDX_ET];
    let medium = state.counts[IDX_CA];
    let large = state.counts[IDX_BB];
    (small, medium, large)
}

/// Bombardment strength: half a point per destroyer, three per cruiser and
/// 27/2 per battleship, each term rounded down.
pub open spec fn bombard_as(counts: Seq<u32>) -> int {
    counts[0] / 2 + counts[1] * 3 + counts[2] * 9 * 3 / 2
}

/// Bombardment strength of a state.
pub fn bombard_attack_as(state: &FleetCombatState) -> (r: u32)
    requires
        bombard_as(state.counts@) <= u32::MAX,
        state.counts@[2] * 27 <= u32::MAX,
    ensures
        r == bombard_as(state.counts@),
{
    state.counts[IDX_DD] / 2 + state.counts[IDX_CA] * 3 + state.counts[IDX_BB] * 9 * 3 / 2
}

/// Hits the warships of a blitz land on the defence while covering the
/// landing: none without warships, else half the bombardment strength (at
/// least one point), rounded up.
pub fn blitz_cover_hits(state: &FleetCombatState) -> (r: u32)
    requires
        state.counts@[0] + state.counts@[1] + state.counts@[2] <= u32::MAX,
        bombard_as(state.counts@) <= u32::MAX,
        state.counts@[2] * 27 <= u32::MAX,
    ensures
        r == if state.counts@[0] + state.counts@[1] + state.counts@[2] == 0 {
            0
        } else {
            hits_scored(
                if bombard_as(state.counts@) > 1 {
                    bombard_as(state.counts@) as u32
                } else {
                    1u32
                },
                50,
            )
        },
{
    let combat_ships = state.counts[IDX_DD] + state.counts[IDX_CA] + state.counts[IDX_BB];
    if combat_ships == 0 {
        return 0;
    }
    let attack = bombard_attack_as(state);
    hits_from(if attack > 1 { attack } else { 1 }, 50)
}

// ---------------------------------------------------------------------------
// Worlds, starbases and stardocks in a battle
// ---------------------------------------------------------------------------

/// Grid distance (|dx| + |dy|) from a planet to `from`.
pub open spec fn planet_distance(p: PlanetRecord, from: Seq<u8>) -> int {
    let dx = p.raw@[0] - from[0];
    let dy = p.raw@[1] - from[1];
    (if dx < 0 { -dx } else { dx }) + (if dy < 0 { -dy } else { dy })
}

/// World `i` is owned by `empire` and is the nearest such world to `from`
/// by grid distance, the first one on ties.
pub open spec fn nearest_owned_at(planets: Seq<PlanetRecord>, empire: u8, from: Seq<u8>, i: int) -> bool {
    &&& 0 <= i < 20
    &&& planets[i].raw@[0x5D] == empire
    &&& forall|j: int|
        0 <= j < 20 && (#[trigger] planets[j]).raw@[0x5D] == empire ==> planet_distance(planets[j], from)
            >= planet_distance(planets[i], from)
    &&& forall|j: int|
        0 <= j < i && (#[trigger] planets[j]).raw@[0x5D] == empire ==> planet_distance(planets[j], from)
            > planet_distance(planets[i], from)
}

/// At most one world is the nearest owned one.
proof fn lemma_nearest_owned_unique(planets: Seq<PlanetRecord>, empire: u8, from: Seq<u8>, i: int, k: int)
    requires
        nearest_owned_at(planets, empire, from, i),
        nearest_owned_at(planets, empire, from, k),
    ensures
        i == k,
{
    if i < k {
        assert(planets[i].raw@[0x5D] == empire);
        assert(planets[k].raw@[0x5D] == empire);
    } else if k < i {
        assert(planets[i].raw@[0x5D] == empire);
        assert(planets[k].raw@[0x5D] == empire);
    }
}

/// Where a retreating task force of `empire` at `from` heads: the sector of
/// its nearest owned world, or where it stands when it owns none.
pub open spec fn retreat_target(planets: Seq<PlanetRecord>, empire: u8, from: Seq<u8>) -> Seq<u8> {
    if exists|i: int| nearest_owned_at(planets, empire, from, i) {
        planets[choose|i: int| nearest_owned_at(planets, empire, from, i)].raw@.subrange(0, 2)
    } else {
        from
    }
}

/// The nearest world owned by `empire`, by grid distance (the first such
/// world on ties), if it owns any.
pub fn nearest_owned_planet(game_data: &CoreGameData, empire: u8, from: [u8; 2]) -> (r: Option<
    [u8; 2],
>)
    ensures
        match r {
            None => forall|i: int|
                0 <= i < 20 ==> (#[trigger] game_data.planets.records@[i]).raw@[0x5D] != empire,
            Some(c) => exists|i: int|
                #[trigger] nearest_owned_at(game_data.planets.records@, empire, from@, i) && c@
                    == game_data.planets.records@[i].raw@.subrange(0, 2),
        },
{
    let planets = &game_data.planets.records;
    let mut best: Option<usize> = None;
    let mut best_dist: u32 = 0;
    let mut i: usize = 0;
    while i < 20
        invariant
            i <= 20,
            planets@ == game_data.planets.records@,
            match best {
                None => forall|j: int| 0 <= j < i ==> (#[trigger] planets@[j]).raw@[0x5D] != empire,
                Some(b) => b < i && planets@[b as int].raw@[0x5D] == empire && best_dist
                    == planet_distance(planets@[b as int], from@) && (forall|j: int|
                    0 <= j < i && (#[trigger] planets@[j]).raw@[0x5D] == empire ==> planet_distance(
                        planets@[j],
                        from@,
                    ) >= best_dist) && (forall|j: int|
                    0 <= j < b && (#[trigger] planets@[j]).raw@[0x5D] == empire ==> planet_distance(
                        planets@[j],
                        from@,
                    ) > best_dist),
            },
        decreases 20 - i,
    {
        let p = &planets[i];
        if p.owner_empire_slot_raw() == empire {
            let c = p.coords_raw();
            let dx: u32 = if c[0] >= from[0] {
                (c[0] - from[0]) as u32
            } else {
                (from[0] - c[0]) as u32
            };
            let dy: u32 = if c[1] >= from[1] {
                (c[1] - from[1]) as u32
            } else {
                (from[1] - c[1]) as u32
            };
            let d = dx + dy;
            assert(d == planet_distance(planets@[i as int], from@));
            match best {
                None => {
                    best = Some(i);
                    best_dist = d;
                },
                Some(_) => {
                    if d < best_dist {
                        best = Some(i);
                        best_dist = d;
                    }
                },
            }
        }
        i = i + 1;
    }
    match best {
        None => None,
        Some(b) => {
            let c = planets[b].coords_raw();
            assert(nearest_owned_at(planets@, empire, from@, b as int));
            Some(c)
        },
    }
}

/// Number of the first `n` bases that are active starbases of `owner` at
/// `coords`.
pub open spec fn friendly_starbases_in(bases: Seq<BaseRecord>, owner: u8, coords: Seq<u8>, n: int) -> nat
    decreases n,
{
    if n <= 0 {
        0
    } else {
        friendly_starbases_in(bases, owner, coords, n - 1) + if friendly_starbase(
            bases[n - 1],
            owner,
            coords,
        ) {
            1nat
        } else {
            0nat
        }
    }
}

/// Number of active starbases of `owner` at `coords`.
pub fn starbase_count_at(game_data: &CoreGameData, coords: [u8; 2], owner: u8) -> (r: u32)
    ensures
        r == friendly_starbases_in(
            game_data.bases.records@,
            owner,
            coords@,
            game_data.bases.records@.len() as int,
        ) as u32,
{
    let bases = &game_data.bases.records;
    let mut count: usize = 0;
    let mut i: usize = 0;
    while i < bases.len()
        invariant
            i <= bases@.len(),
            count <= i,
            bases@ == game_data.bases.records@,
            count == friendly_starbases_in(bases@, owner, coords@, i as int),
        decreases bases@.len() - i,
    {
        let b = &bases[i];
        let bc = b.coords_raw();
        if bc[0] == coords[0] && bc[1] == coords[1] && b.owner_empire_raw() == owner
            && b.active_flag_raw() != 0 {
            assert(bc@ =~= coords@);
            count = count + 1;
        } else {
            assert(!friendly_starbase(bases@[i as int], owner, coords@)) by {
                if bc@ =~= coords@ {
                    assert(bc@[0] == coords@[0] && bc@[1] == coords@[1]);
                }
            }
        }
        i = i + 1;
    }
    count as u32
}

/// Index of the first world at `coords`, if any.
pub fn planet_idx_at_coords(game_data: &CoreGameData, coords: [u8; 2]) -> (r: Option<usize>)
    ensures
        match r {
            None => forall|i: int|
                0 <= i < 20 ==> (#[trigger] game_data.planets.records@[i]).raw@.subrange(0, 2)
                    != coords@,
            Some(i) => i < 20 && game_data.planets.records@[i as int].raw@.subrange(0, 2) == coords@
                && forall|j: int|
                0 <= j < i ==> (#[trigger] game_data.planets.records@[j]).raw@.subrange(0, 2)
                    != coords@,
        },
{
    let mut i: usize = 0;
    while i < 20
        invariant
            i <= 20,
            forall|j: int|
                0 <= j < i ==> (#[trigger] game_data.planets.records@[j]).raw@.subrange(0, 2)
                    != coords@,
        decreases 20 - i,
    {
        let c = game_data.planets.records[i].coords_raw();
        if c[0] == coords[0] && c[1] == coords[1] {
            assert(c@ =~= coords@);
            return Some(i);
        }
        assert(c@ != coords@) by {
            if c@ =~= coords@ {
                assert(c@[0] == coords@[0]);
            }
        }
        i = i + 1;
    }
    None
}

/// One stardock slot taking hits: its ships are destroyed up to the hits
/// left, and an emptied slot loses its kind.
pub open spec fn stardock_slot_hit(raw: Seq<u8>, hits: int, slot: int) -> (Seq<u8>, int) {
    let count = le16(raw, 0x38 + 2 * slot) as int;
    if hits <= 0 || count == 0 {
        (raw, hits)
    } else {
        let d = if hits < count {
            hits
        } else {
            count
        };
        let r = put16(raw, 0x38 + 2 * slot, (count - d) as u16);
        (if count - d == 0 {
            r.update(0x4C + slot, 0)
        } else {
            r
        }, hits - d)
    }
}

/// The stardock after hits on its first `n` slots, and the hits left.
pub open spec fn stardock_hit(raw: Seq<u8>, hits: int, n: int) -> (Seq<u8>, int)
    decreases n,
{
    if n <= 0 {
        (raw, hits)
    } else {
        let prev = stardock_hit(raw, hits, n - 1);
        stardock_slot_hit(prev.0, prev.1, n - 1)
    }
}

/// Bombardment of the ten stardock slots in order; returns the hits left.
pub fn reduce_stardock(planet: &mut PlanetRecord, hits: u32) -> (left: u32)
    ensures
        final(planet).raw@ == stardock_hit(old(planet).raw@, hits as int, 10).0,
        left == stardock_hit(old(planet).raw@, hits as int, 10).1,
{
    let ghost raw0 = planet.raw@;
    let mut hits = hits;
    let ghost h0 = hits as int;
    let mut slot: usize = 0;
    while slot < 10
        invariant
            slot <= 10,
            planet.raw@ == stardock_hit(raw0, h0, slot as int).0,
            hits == stardock_hit(raw0, h0, slot as int).1,
        decreases 10 - slot,
    {
        if hits > 0 {
            let count = planet.stardock_count_raw(slot) as u32;
            if count > 0 {
                let destroyed = if hits < count {
                    hits
                } else {
                    count
                };
                planet.set_stardock_count_raw(slot, (count - destroyed) as u16);
                if planet.stardock_count_raw(slot) == 0 {
                    planet.set_stardock_kind_raw(slot, 0);
                }
                hits = hits - destroyed;
            }
        }
        slot = slot + 1;
    }
    hits
}

/// The kinds of assault missions, by urgency.
#[derive(Clone, Copy, Debug, PartialEq, Eq, Structural)]
pub enum MissionClass {
    Bombard,
    Invade,
    Blitz,
    Other,
}

/// Order in which assault missions resolve: blitz, invasion, bombardment,
/// then the rest.
pub fn mission_priority(class: MissionClass) -> (r: u8)
    ensures
        r == match class {
            MissionClass::Blitz => 0u8,
            MissionClass::Invade => 1u8,
            MissionClass::Bombard => 2u8,
            MissionClass::Other => 3u8,
        },
{
    match class {
        MissionClass::Blitz => 0,
        MissionClass::Invade => 1,
        MissionClass::Bombard => 2,
        MissionClass::Other => 3,
    }
}

// ---------------------------------------------------------------------------
// Task forces
// ---------------------------------------------------------------------------

/// What a task force is doing in a battle.
#[derive(Clone, Copy, Debug, PartialEq, Eq, Structural)]
pub enum BattleRole {
    IncumbentDefender,
    GuardingDefender,
    Attacker,
    Neutral,
}

/// One empire's fleets at one sector, fighting together.
#[derive(Clone, Debug)]
pub struct TaskForce {
    pub empire: u8,
    pub fleet_indices: Vec<usize>,
    pub coords: [u8; 2],
    pub state: FleetCombatState,
    pub role: BattleRole,
    pub withdrew_under_roe: bool,
    pub engaged_in_battle: bool,
    /// Guards and blockades get one free hold when the rules of engagement
    /// fail; set once it is used.
    pub free_hold_used: bool,
}

/// Some class of the task force has a hull left.
pub open spec fn tf_alive(tf: TaskForce) -> bool {
    exists|k: int| 0 <= k < 7 && tf.state.counts@[k] > 0
}

/// Whether the task force still has any hull.
pub fn tf_has_any_units(tf: &TaskForce) -> (r: bool)
    ensures
        r == tf_alive(*tf),
{
    tf.state.has_units()
}

/// Targeting key of a hostile task force (smaller is preferred): defenders
/// first, then attackers threatening our world, then the stronger, then the
/// lower empire number.
pub open spec fn target_key(tf: TaskForce, our_empire: u8, planet_owner: Option<u8>) -> (bool, bool, int, u8) {
    let guarding = tf.role == BattleRole::IncumbentDefender || tf.role == BattleRole::GuardingDefender;
    let threatens_ours = planet_owner == Some(our_empire) && tf.role == BattleRole::Attacker;
    (!guarding, !threatens_ours, -combat_as(tf.state.counts@), tf.empire)
}

/// Lexicographic order on targeting keys (`false` before `true`).
pub open spec fn key_le(a: (bool, bool, int, u8), b: (bool, bool, int, u8)) -> bool {
    (!a.0 && b.0) || (a.0 == b.0 && ((!a.1 && b.1) || (a.1 == b.1 && (a.2 < b.2 || (a.2 == b.2
        && a.3 <= b.3)))))
}

/// A hostile task force that can be targeted: another empire's, with hulls.
pub open spec fn targetable(tf: TaskForce, our_empire: u8) -> bool {
    tf.empire != our_empire && tf_alive(tf)
}

fn key_le_exec(
    a_guard: bool,
    a_threat: bool,
    a_as: u32,
    a_emp: u8,
    b_guard: bool,
    b_threat: bool,
    b_as: u32,
    b_emp: u8,
) -> (r: bool)
    ensures
        r == key_le(
            (!a_guard, !a_threat, -(a_as as int), a_emp),
            (!b_guard, !b_threat, -(b_as as int), b_emp),
        ),
{
    if a_guard != b_guard {
        a_guard
    } else if a_threat != b_threat {
        a_threat
    } else if a_as != b_as {
        a_as > b_as
    } else {
        a_emp <= b_emp
    }
}

/// The hostile task force to fire on, with the reason for fighting it: the
/// first targetable candidate with the smallest targeting key.
pub fn hostile_target_priority(
    our_empire: u8,
    our_role: BattleRole,
    candidates: &[(&TaskForce, HostilityReason)],
    planet_owner: Option<u8>,
) -> (r: Option<(u8, HostilityReason)>)
    requires
        forall|i: int|
            0 <= i < candidates@.len() ==> combat_as((#[trigger] candidates@[i]).0.state.counts@)
                <= u32::MAX,
    ensures
        match r {
            None => forall|i: int|
                0 <= i < candidates@.len() ==> !targetable(*(#[trigger] candidates@[i]).0, our_empire),
            Some((empire, reason)) => exists|i: int|
                0 <= i < candidates@.len() && targetable(*candidates@[i].0, our_empire)
                    && empire == candidates@[i].0.empire && reason == candidates@[i].1 && (forall|
                    j: int,
                |
                    0 <= j < candidates@.len() && targetable(*(#[trigger] candidates@[j]).0, our_empire)
                        ==> key_le(
                        target_key(*candidates@[i].0, our_empire, planet_owner),
                        target_key(*candidates@[j].0, our_empire, planet_owner),
                    )) && (forall|j: int|
                    0 <= j < i && targetable(*(#[trigger] candidates@[j]).0, our_empire) ==> !key_le(
                        target_key(*candidates@[j].0, our_empire, planet_owner),
                        target_key(*candidates@[i].0, our_empire, planet_owner),
                    )),
        },
{
    let mut best: Option<usize> = None;
    let mut i: usize = 0;
    while i < candidates.len()
        invariant
            i <= candidates@.len(),
            forall|t: int|
                0 <= t < candidates@.len() ==> combat_as((#[trigger] candidates@[t]).0.state.counts@)
                    <= u32::MAX,
            match best {
                None => forall|j: int|
                    0 <= j < i ==> !targetable(*(#[trigger] candidates@[j]).0, our_empire),
                Some(b) => b < i && targetable(*candidates@[b as int].0, our_empire) && (forall|
                    j: int,
                |
                    0 <= j < i && targetable(*(#[trigger] candidates@[j]).0, our_empire) ==> key_le(
                        target_key(*candidates@[b as int].0, our_empire, planet_owner),
                        target_key(*candidates@[j].0, our_empire, planet_owner),
                    )) && (forall|j: int|
                    0 <= j < b && targetable(*(#[trigger] candidates@[j]).0, our_empire) ==> !key_le(
                        target_key(*candidates@[j].0, our_empire, planet_owner),
                        target_key(*candidates@[b as int].0, our_empire, planet_owner),
                    )),
            },
        decreases candidates@.len() - i,
    {
        let tf = candidates[i].0;
        if tf.empire != our_empire && tf.state.has_units() {
            match best {
                None => {
                    best = Some(i);
                },
                Some(b) => {
                    let cur = candidates[b].0;
                    let c_guard = match cur.role {
                        BattleRole::IncumbentDefender | BattleRole::GuardingDefender => true,
                        _ => false,
                    };
                    let c_threat = match (planet_owner, cur.role) {
                        (Some(o), BattleRole::Attacker) => o == our_empire,
                        _ => false,
                    };
                    let t_guard = match tf.role {
                        BattleRole::IncumbentDefender | BattleRole::GuardingDefender => true,
                        _ => false,
                    };
                    let t_threat = match (planet_owner, tf.role) {
                        (Some(o), BattleRole::Attacker) => o == our_empire,
                        _ => false,
                    };
                    let c_as = cur.state.total_combat_as();
                    let t_as = tf.state.total_combat_as();
                    if !key_le_exec(c_guard, c_threat, c_as, cur.empire, t_guard, t_threat, t_as, tf.empire) {
                        best = Some(i);
                    }
                },
            }
        }
        i = i + 1;
    }
    match best {
        None => None,
        Some(b) => Some((candidates[b].0.empire, candidates[b].1)),
    }
}

/// `e` is the only empire whose task forces have hulls left, and some do.
pub open spec fn sole_survivor(tfs: Seq<TaskForce>, e: u8) -> bool {
    (exists|i: int| 0 <= i < tfs.len() && tf_alive(tfs[i]) && tfs[i].empire == e) && forall|i: int|
        0 <= i < tfs.len() && tf_alive(#[trigger] tfs[i]) ==> tfs[i].empire == e
}

/// The empire left holding the field: the declared winner if there is one,
/// else the only empire with hulls left, if exactly one has any.
pub fn dominant_empire_after_battle(task_forces: &[TaskForce], winner_empire: Option<u8>) -> (r: Option<u8>)
    ensures
        winner_empire is Some ==> r == winner_empire,
        winner_empire is None ==> match r {
            Some(e) => sole_survivor(task_forces@, e),
            None => forall|e: u8| !#[trigger] sole_survivor(task_forces@, e),
        },
{
    if winner_empire.is_some() {
        return winner_empire;
    }
    let mut first: Option<u8> = None;
    let mut i: usize = 0;
    while i < task_forces.len()
        invariant
            i <= task_forces@.len(),
            winner_empire is None,
            match first {
                None => forall|j: int| 0 <= j < i ==> !tf_alive(#[trigger] task_forces@[j]),
                Some(e) => (exists|j: int|
                    0 <= j < i && tf_alive(task_forces@[j]) && task_forces@[j].empire == e)
                    && forall|j: int|
                    0 <= j < i && tf_alive(#[trigger] task_forces@[j]) ==> task_forces@[j].empire
                        == e,
            },
        decreases task_forces@.len() - i,
    {
        let tf = &task_forces[i];
        if tf.state.has_units() {
            match first {
                None => {
                    first = Some(tf.empire);
                },
                Some(e) => {
                    if tf.empire != e {
                        proof {
                            assert forall|e2: u8| !#[trigger] sole_survivor(task_forces@, e2) by {
                                let w = choose|j: int|
                                    0 <= j < i && tf_alive(task_forces@[j]) && task_forces@[j].empire == e;
                                if sole_survivor(task_forces@, e2) {
                                    assert(tf_alive(task_forces@[w]));
                                    assert(tf_alive(task_forces@[i as int]));
                                }
                            }
                        }
                        return None;
                    }
                },
            }
        }
        i = i + 1;
    }
    first
}

/// Base `i` is destroyed: an active starbase of `owner` at `coords`, among
/// the first `destroyed` such bases.
pub open spec fn base_destroyed(
    bases: Seq<BaseRecord>,
    owner: u8,
    coords: Seq<u8>,
    destroyed: u32,
    i: int,
) -> bool {
    friendly_starbase(bases[i], owner, coords) && friendly_starbases_in(bases, owner, coords, i)
        < destroyed
}

/// Ids of the destroyed bases among the first `n`, in order.
pub open spec fn destroyed_base_ids(
    bases: Seq<BaseRecord>,
    owner: u8,
    coords: Seq<u8>,
    destroyed: u32,
    n: int,
) -> Seq<u8>
    decreases n,
{
    if n <= 0 {
        Seq::empty()
    } else {
        destroyed_base_ids(bases, owner, coords, destroyed, n - 1) + if base_destroyed(
            bases,
            owner,
            coords,
            destroyed,
            n - 1,
        ) {
            seq![bases[n - 1].raw@[0x04]]
        } else {
            Seq::empty()
        }
    }
}

proof fn lemma_destroyed_ids_len(bases: Seq<BaseRecord>, owner: u8, coords: Seq<u8>, destroyed: u32, n: int)
    requires
        0 <= n <= bases.len(),
    ensures
        destroyed_base_ids(bases, owner, coords, destroyed, n).len() == if friendly_starbases_in(
            bases,
            owner,
            coords,
            n,
        ) < destroyed {
            friendly_starbases_in(bases, owner, coords, n) as int
        } else {
            destroyed as int
        },
        friendly_starbases_in(bases, owner, coords, n) <= n,
    decreases n,
{
    if n > 0 {
        lemma_destroyed_ids_len(bases, owner, coords, destroyed, n - 1);
    }
}

/// Destroys up to `destroyed` active starbases of `owner` at `coords`, in
/// base order, zeroing their records, and lowers the owner's starbase count
/// (that of player record `owner - 1`, or the first for owner 0) by the
/// number destroyed. Returns the ids of the destroyed bases.
pub fn remove_destroyed_starbases(
    game_data: &mut CoreGameData,
    coords: [u8; 2],
    owner: u8,
    destroyed: u32,
) -> (ids: Vec<u8>)
    ensures
        ids@ == destroyed_base_ids(
            old(game_data).bases.records@,
            owner,
            coords@,
            destroyed,
            old(game_data).bases.records@.len() as int,
        ),
        final(game_data).bases.records@.len() == old(game_data).bases.records@.len(),
        forall|i: int|
            0 <= i < old(game_data).bases.records@.len() ==> (#[trigger] final(game_data).bases.records@[i]).raw@
                == if base_destroyed(old(game_data).bases.records@, owner, coords@, destroyed, i) {
                Seq::new(35, |k: int| 0u8)
            } else {
                old(game_data).bases.records@[i].raw@
            },
        final(game_data).player.records@.len() == old(game_data).player.records@.len(),
        forall|p: int|
            0 <= p < old(game_data).player.records@.len() ==> (#[trigger] final(game_data).player.records@[p]).raw@
                == if p == (if owner > 0 { owner - 1 } else { 0 }) {
                put16(
                    old(game_data).player.records@[p].raw@,
                    0x44,
                    sub_or_zero(le16(old(game_data).player.records@[p].raw@, 0x44) as u32, ids@.len() as u16 as u32) as u16,
                )
            } else {
                old(game_data).player.records@[p].raw@
            },
        final(game_data).planets == old(game_data).planets,
        final(game_data).fleets == old(game_data).fleets,
        final(game_data).conquest == old(game_data).conquest,
        final(game_data).setup == old(game_data).setup,
        final(game_data).ipbm == old(game_data).ipbm,
{
    let ghost bases0 = game_data.bases.records@;
    let n = game_data.bases.records.len();
    let mut ids: Vec<u8> = Vec::new();
    let mut remaining = destroyed;
    let mut i: usize = 0;
    while i < n
        invariant
            i <= n == bases0.len(),
            game_data.bases.records@.len() == n,
            ids@ == destroyed_base_ids(bases0, owner, coords@, destroyed, i as int),
            remaining == destroyed - ids@.len(),
            ids@.len() <= destroyed,
            remaining > 0 ==> ids@.len() == friendly_starbases_in(bases0, owner, coords@, i as int),
            forall|j: int|
                0 <= j < n ==> (#[trigger] game_data.bases.records@[j]).raw@ == if j < i
                    && base_destroyed(bases0, owner, coords@, destroyed, j) {
                    Seq::new(35, |k: int| 0u8)
                } else {
                    bases0[j].raw@
                },
            game_data.player == old(game_data).player,
            game_data.planets == old(game_data).planets,
            game_data.fleets == old(game_data).fleets,
            game_data.conquest == old(game_data).conquest,
            game_data.setup == old(game_data).setup,
            game_data.ipbm == old(game_data).ipbm,
            bases0 == old(game_data).bases.records@,
        decreases n - i,
    {
        proof {
            lemma_destroyed_ids_len(bases0, owner, coords@, destroyed, i as int);
            lemma_destroyed_ids_len(bases0, owner, coords@, destroyed, i + 1);
        }
        let b = &game_data.bases.records[i];
        let bc = b.coords_raw();
        let is_friendly = bc[0] == coords[0] && bc[1] == coords[1] && b.owner_empire_raw() == owner
            && b.active_flag_raw() != 0;
        proof {
            if bc@ =~= coords@ {
                assert(bc@[0] == coords@[0] && bc@[1] == coords@[1]);
            }
            assert(is_friendly == friendly_starbase(bases0[i as int], owner, coords@));
        }
        if remaining > 0 && is_friendly {
            let id = b.base_id_raw();
            ids.push(id);
            game_data.bases.records.set(i, BaseRecord::new_zeroed());
            remaining = remaining - 1;
        }
        i = i + 1;
    }
    let slot: usize = if owner > 0 {
        (owner - 1) as usize
    } else {
        0
    };
    if slot < game_data.player.records.len() {
        let count = game_data.player.records[slot].starbase_count_raw();
        let removed = ids.len() as u16;
        let new_count = if count > removed {
            count - removed
        } else {
            0
        };
        let mut rec_raw = game_data.player.records[slot].raw;
        crate::records::bytes::write_u16(&mut rec_raw, 0x44, new_count);
        game_data.player.records.set(slot, PlayerRecord { raw: rec_raw });
    }
    ids
}

// ---------------------------------------------------------------------------
// Reporting
// ---------------------------------------------------------------------------

/// A fleet with some warship, scout, transport or ETAC.
pub open spec fn has_ships(f: FleetRecord) -> bool {
    le16(f.raw@, 0x2A) > 0 || le16(f.raw@, 0x28) > 0 || le16(f.raw@, 0x26) > 0 || f.raw@[0x24] > 0
        || le16(f.raw@, 0x2C) > 0 || le16(f.raw@, 0x30) > 0
}

/// Fleet ids of the listed fleets (existing ones only) that have ships and
/// a non-zero id, in order.
pub open spec fn named_fleet_ids(fleets: Seq<FleetRecord>, idx: Seq<usize>) -> Seq<u8>
    decreases idx.len(),
{
    if idx.len() == 0 {
        Seq::empty()
    } else {
        let i = idx.last() as int;
        named_fleet_ids(fleets, idx.drop_last()) + if i < fleets.len() && has_ships(fleets[i])
            && fleets[i].raw@[0x05] != 0 {
            seq![fleets[i].raw@[0x05]]
        } else {
            Seq::empty()
        }
    }
}

/// The fleet id to name in a report: the id of the only listed fleet with
/// ships and an id, if there is exactly one.
pub fn single_named_fleet_id(game_data: &CoreGameData, fleet_indices: &[usize]) -> (r: Option<u8>)
    ensures
        r == if named_fleet_ids(game_data.fleets.records@, fleet_indices@).len() == 1 {
            Some(named_fleet_ids(game_data.fleets.records@, fleet_indices@)[0])
        } else {
            None::<u8>
        },
{
    let fleets = &game_data.fleets.records;
    let mut named: Vec<u8> = Vec::new();
    let mut k: usize = 0;
    while k < fleet_indices.len()
        invariant
            k <= fleet_indices@.len(),
            fleets@ == game_data.fleets.records@,
            named@ == named_fleet_ids(fleets@, fleet_indices@.take(k as int)),
        decreases fleet_indices@.len() - k,
    {
        assert(fleet_indices@.take(k + 1).drop_last() =~= fleet_indices@.take(k as int));
        let idx = fleet_indices[k];
        if idx < fleets.len() {
            let f = &fleets[idx];
            let ships = f.destroyer_count() > 0 || f.cruiser_count() > 0 || f.battleship_count() > 0
                || f.scout_count() > 0 || f.troop_transport_count() > 0 || f.etac_count() > 0;
            if ships && f.fleet_id() != 0 {
                named.push(f.fleet_id());
            }
        }
        k = k + 1;
        assert(named@ =~= named_fleet_ids(fleets@, fleet_indices@.take(k as int)));
    }
    assert(fleet_indices@.take(k as int) =~= fleet_indices@);
    if named.len() == 1 {
        Some(named[0])
    } else {
        None
    }
}

/// A listed fleet that exists and has a non-zero id.
pub open spec fn reportable(fleets: Seq<FleetRecord>, idx: usize) -> bool {
    idx < fleets.len() && fleets[idx as int].raw@[0x05] != 0
}

/// The listed fleet that reports: the one with the smallest non-zero id
/// (the first listed on ties), among those that exist.
pub fn preferred_reporting_fleet_index(game_data: &CoreGameData, fleet_indices: &[usize]) -> (r: Option<
    usize,
>)
    ensures
        match r {
            None => forall|k: int|
                0 <= k < fleet_indices@.len() ==> !reportable(
                    game_data.fleets.records@,
                    #[trigger] fleet_indices@[k],
                ),
            Some(i) => exists|k: int|
                0 <= k < fleet_indices@.len() && fleet_indices@[k] == i && reportable(
                    game_data.fleets.records@,
                    i,
                ) && (forall|j: int|
                    0 <= j < fleet_indices@.len() && reportable(
                        game_data.fleets.records@,
                        #[trigger] fleet_indices@[j],
                    ) ==> game_data.fleets.records@[fleet_indices@[j] as int].raw@[0x05]
                        >= game_data.fleets.records@[i as int].raw@[0x05]) && (forall|j: int|
                    0 <= j < k && reportable(game_data.fleets.records@, #[trigger] fleet_indices@[j])
                        ==> game_data.fleets.records@[fleet_indices@[j] as int].raw@[0x05]
                        > game_data.fleets.records@[i as int].raw@[0x05]),
        },
{
    let fleets = &game_data.fleets.records;
    let mut best: Option<usize> = None;
    let mut best_k: usize = 0;
    let mut k: usize = 0;
    while k < fleet_indices.len()
        invariant
            k <= fleet_indices@.len(),
            fleets@ == game_data.fleets.records@,
            match best {
                None => forall|j: int| 0 <= j < k ==> !reportable(fleets@, #[trigger] fleet_indices@[j]),
                Some(i) => best_k < k && fleet_indices@[best_k as int] == i && reportable(fleets@, i)
                    && (forall|j: int|
                    0 <= j < k && reportable(fleets@, #[trigger] fleet_indices@[j])
                        ==> fleets@[fleet_indices@[j] as int].raw@[0x05] >= fleets@[i as int].raw@[0x05])
                    && (forall|j: int|
                    0 <= j < best_k && reportable(fleets@, #[trigger] fleet_indices@[j])
                        ==> fleets@[fleet_indices@[j] as int].raw@[0x05] > fleets@[i as int].raw@[0x05]),
            },
        decreases fleet_indices@.len() - k,
    {
        let idx = fleet_indices[k];
        if idx < fleets.len() && fleets[idx].fleet_id() != 0 {
            match best {
                None => {
                    best = Some(idx);
                    best_k = k;
                },
                Some(b) => {
                    if fleets[idx].fleet_id() < fleets[b].fleet_id() {
                        best = Some(idx);
                        best_k = k;
                    }
                },
            }
        }
        k = k + 1;
    }
    best
}

/// The smallest non-zero fleet id among the listed fleets that exist.
pub fn preferred_reporting_fleet_id(game_data: &CoreGameData, fleet_indices: &[usize]) -> (r: Option<u8>)
    ensures
        match r {
            None => forall|k: int|
                0 <= k < fleet_indices@.len() ==> !reportable(
                    game_data.fleets.records@,
                    #[trigger] fleet_indices@[k],
                ),
            Some(id) => (exists|k: int|
                0 <= k < fleet_indices@.len() && reportable(game_data.fleets.records@, fleet_indices@[k])
                    && game_data.fleets.records@[fleet_indices@[k] as int].raw@[0x05] == id) && forall|
                j: int,
            |
                0 <= j < fleet_indices@.len() && reportable(
                    game_data.fleets.records@,
                    #[trigger] fleet_indices@[j],
                ) ==> game_data.fleets.records@[fleet_indices@[j] as int].raw@[0x05] >= id,
        },
{
    match preferred_reporting_fleet_index(game_data, fleet_indices) {
        None => None,
        Some(i) => Some(game_data.fleets.records[i].fleet_id()),
    }
}

/// How a fleet's battle is reported: guards and fleets on assault, join,
/// rendezvous or salvage missions intercepted; fleets moving, patrolling,
/// viewing, colonizing or scouting were attacked; without a mission, a
/// guarding defender intercepted and anyone else was attacked.
pub open spec fn perspective_for(mission: Option<Mission>, role: BattleRole) -> FleetBattlePerspective {
    match mission {
        Some(m) => match m {
            Mission::MoveOnly | Mission::SeekHome | Mission::PatrolSector | Mission::ViewWorld
            | Mission::ColonizeWorld | Mission::ScoutSector | Mission::ScoutSolarSystem =>
                FleetBattlePerspective::Attacked,
            _ => FleetBattlePerspective::Intercepted,
        },
        None => if role == BattleRole::GuardingDefender {
            FleetBattlePerspective::Intercepted
        } else {
            FleetBattlePerspective::Attacked
        },
    }
}

/// How a fleet on `mission` in role `role` reports its battle.
pub fn report_perspective_for_mission(mission: Option<Mission>, role: BattleRole) -> (r: FleetBattlePerspective)
    ensures
        r == perspective_for(mission, role),
{
    match mission {
        Some(Mission::GuardStarbase) | Some(Mission::GuardBlockadeWorld) => {
            FleetBattlePerspective::Intercepted
        },
        Some(Mission::MoveOnly) | Some(Mission::SeekHome) | Some(Mission::PatrolSector) | Some(
            Mission::ViewWorld,
        ) | Some(Mission::ColonizeWorld) | Some(Mission::ScoutSector) | Some(
            Mission::ScoutSolarSystem,
        ) => FleetBattlePerspective::Attacked,
        Some(Mission::BombardWorld) | Some(Mission::InvadeWorld) | Some(Mission::BlitzWorld) | Some(
            Mission::JoinAnotherFleet,
        ) | Some(Mission::RendezvousSector) | Some(Mission::Salvage) => {
            FleetBattlePerspective::Intercepted
        },
        None => {
            match role {
                BattleRole::GuardingDefender => FleetBattlePerspective::Intercepted,
                _ => FleetBattlePerspective::Attacked,
            }
        },
    }
}

// ---------------------------------------------------------------------------
// Holding and withdrawing fleets
// ---------------------------------------------------------------------------

/// The record of a fleet stopped where it stands: speed 0, the hold order
/// aimed at its own sector, tuple C set to the hold payload (0x81, then
/// zeros) and, when `clear_exact`, the exact-position marker cleared.
pub open spec fn held_in_place(raw: Seq<u8>, clear_exact: bool) -> Seq<u8> {
    Seq::new(
        raw.len(),
        |i: int|
            if i == 0x0A || i == 0x1F || (0x1A <= i < 0x1E) || (clear_exact && i == 0x1E) {
                0u8
            } else if i == 0x19 {
                0x81u8
            } else if i == 0x20 {
                raw[0x0B]
            } else if i == 0x21 {
                raw[0x0C]
            } else {
                raw[i]
            },
    )
}

/// Stops a fleet where it stands and forgets its exact position.
pub fn set_fleet_to_hold_current_position(fleet: &mut FleetRecord)
    ensures
        final(fleet).raw@ == held_in_place(old(fleet).raw@, true),
{
    let coords = fleet.current_location_coords_raw();
    fleet.set_current_speed(0);
    fleet.set_standing_order_kind(FleetStandingOrderKind::HoldPosition);
    fleet.set_standing_order_target_coords_raw(coords);
    fleet.set_tuple_c_payload_raw([0x81, 0x00, 0x00, 0x00, 0x00]);
    fleet.raw[0x1e] = 0x00;
    assert(fleet.raw@ =~= held_in_place(old(fleet).raw@, true));
}

/// A fleet that withdrew with no ship left: held in place with its rules
/// of engagement at 0.
pub open spec fn emptied_withdrawal(raw: Seq<u8>) -> Seq<u8> {
    held_in_place(raw, true).update(0x25, 0)
}

/// Whether fleet `k` is listed.
pub open spec fn lists(indices: Seq<usize>, k: int) -> bool {
    exists|j: int| 0 <= j < indices.len() && indices[j] == k
}

proof fn lemma_lists_take_step(indices: Seq<usize>, i: int, k: int)
    requires
        0 <= i < indices.len(),
    ensures
        lists(indices.take(i + 1), k) == (lists(indices.take(i), k) || k == indices[i]),
{
    let t0 = indices.take(i);
    let t1 = indices.take(i + 1);
    if lists(t1, k) {
        let j = choose|j: int| 0 <= j < t1.len() && #[trigger] t1[j] == k;
        if j < i {
            assert(t0[j] == k);
        }
    }
    if k == indices[i] {
        assert(t1[i] == k);
    }
    if lists(t0, k) {
        let j = choose|j: int| 0 <= j < t0.len() && #[trigger] t0[j] == k;
        assert(t1[j] == k);
    }
}

/// Holds in place, with rules of engagement 0, each listed fleet that has
/// no ship left (armies alone do not count).
pub fn clear_empty_withdrawn_fleets(game_data: &mut CoreGameData, fleet_indices: &[usize])
    requires
        forall|j: int| 0 <= j < fleet_indices@.len() ==> #[trigger] fleet_indices@[j] < old(game_data).fleets.records@.len(),
    ensures
        final(game_data).fleets.records@.len() == old(game_data).fleets.records@.len(),
        forall|k: int|
            0 <= k < old(game_data).fleets.records@.len() ==> (#[trigger] final(game_data).fleets.records@[k]).raw@
                == if lists(fleet_indices@, k) && !has_ships(old(game_data).fleets.records@[k]) {
                emptied_withdrawal(old(game_data).fleets.records@[k].raw@)
            } else {
                old(game_data).fleets.records@[k].raw@
            },
        final(game_data).player == old(game_data).player,
        final(game_data).planets == old(game_data).planets,
        final(game_data).bases == old(game_data).bases,
        final(game_data).ipbm == old(game_data).ipbm,
        final(game_data).setup == old(game_data).setup,
        final(game_data).conquest == old(game_data).conquest,
{
    let ghost start = game_data.fleets.records@;
    let mut i: usize = 0;
    while i < fleet_indices.len()
        invariant
            i <= fleet_indices@.len(),
            forall|j: int| 0 <= j < fleet_indices@.len() ==> #[trigger] fleet_indices@[j] < start.len(),
            game_data.fleets.records@.len() == start.len(),
            forall|k: int|
                0 <= k < start.len() ==> (#[trigger] game_data.fleets.records@[k]).raw@ == if lists(
                    fleet_indices@.take(i as int),
                    k,
                ) && !has_ships(start[k]) {
                    emptied_withdrawal(start[k].raw@)
                } else {
                    start[k].raw@
                },
            game_data.player == old(game_data).player,
            game_data.planets == old(game_data).planets,
            game_data.bases == old(game_data).bases,
            game_data.ipbm == old(game_data).ipbm,
            game_data.setup == old(game_data).setup,
            game_data.conquest == old(game_data).conquest,
        decreases fleet_indices@.len() - i,
    {
        let idx = fleet_indices[i];
        let mut fleet = FleetRecord { raw: game_data.fleets.records[idx].raw };
        let ghost before = fleet.raw@;
        proof {
            assert forall|k: int| 0 <= k < start.len() implies lists(fleet_indices@.take(i + 1), k) == (
            lists(fleet_indices@.take(i as int), k) || k == idx) by {
                lemma_lists_take_step(fleet_indices@, i as int, k);
            }
        }
        if fleet.destroyer_count() == 0 && fleet.cruiser_count() == 0 && fleet.battleship_count() == 0
            && fleet.scout_count() == 0 && fleet.troop_transport_count() == 0 && fleet.etac_count() == 0 {
            set_fleet_to_hold_current_position(&mut fleet);
            fleet.set_rules_of_engagement(0);
            game_data.fleets.records.set(idx, fleet);
            proof {
                assert(fleet.raw@ =~= emptied_withdrawal(before));
                assert(emptied_withdrawal(emptied_withdrawal(start[idx as int].raw@)) =~= emptied_withdrawal(
                    start[idx as int].raw@,
                ));
            }
        }
        i = i + 1;
    }
    assert(fleet_indices@.take(i as int) =~= fleet_indices@);
}

/// The record of a fleet sent home toward `target`: the seek-home order
/// aimed there, its maximum speed held to 1..=3 as its speed, the retreat
/// marks in tuple A, the first byte of tuple C cleared, and rules of
/// engagement 0.
pub open spec fn retreating(raw: Seq<u8>, target: Seq<u8>) -> Seq<u8> {
    Seq::new(
        raw.len(),
        |i: int|
            if i == 0x1F {
                2u8
            } else if i == 0x20 {
                target[0]
            } else if i == 0x21 {
                target[1]
            } else if i == 0x0A {
                if raw[0x09] < 1 {
                    1u8
                } else if raw[0x09] > 3 {
                    3u8
                } else {
                    raw[0x09]
                }
            } else if i == 0x0D || i == 0x12 {
                0x7Fu8
            } else if i == 0x0E {
                0xC0u8
            } else if i == 0x10 || i == 0x11 {
                0xFFu8
            } else if i == 0x19 || i == 0x25 {
                0u8
            } else {
                raw[i]
            },
    )
}

/// Sends a fleet home toward `target` (see `retreating`).
fn send_fleet_home(fleet: &mut FleetRecord, target: [u8; 2])
    ensures
        final(fleet).raw@ == retreating(old(fleet).raw@, target@),
{
    fleet.set_standing_order_kind(FleetStandingOrderKind::SeekHome);
    fleet.set_standing_order_target_coords_raw(target);
    let max = fleet.max_speed();
    let speed = if max < 1 {
        1
    } else if max > 3 {
        3
    } else {
        max
    };
    fleet.set_current_speed(speed);
    fleet.raw[0x0d] = 0x7f;
    fleet.raw[0x0e] = 0xc0;
    fleet.raw[0x10] = 0xff;
    fleet.raw[0x11] = 0xff;
    fleet.raw[0x12] = 0x7f;
    fleet.raw[0x19] = 0x00;
    fleet.set_rules_of_engagement(0);
    assert(fleet.raw@ =~= retreating(old(fleet).raw@, target@));
}

/// Sends each listed fleet that still has ships home toward
/// `retreat_target`; fleets with no ship left are not touched.
pub fn apply_roe_retreat_to_task_force(
    game_data: &mut CoreGameData,
    fleet_indices: &[usize],
    retreat_target: [u8; 2],
)
    requires
        forall|j: int| 0 <= j < fleet_indices@.len() ==> #[trigger] fleet_indices@[j] < old(game_data).fleets.records@.len(),
    ensures
        final(game_data).fleets.records@.len() == old(game_data).fleets.records@.len(),
        forall|k: int|
            0 <= k < old(game_data).fleets.records@.len() ==> (#[trigger] final(game_data).fleets.records@[k]).raw@
                == if lists(fleet_indices@, k) && has_ships(old(game_data).fleets.records@[k]) {
                retreating(old(game_data).fleets.records@[k].raw@, retreat_target@)
            } else {
                old(game_data).fleets.records@[k].raw@
            },
        final(game_data).player == old(game_data).player,
        final(game_data).planets == old(game_data).planets,
        final(game_data).bases == old(game_data).bases,
        final(game_data).ipbm == old(game_data).ipbm,
        final(game_data).setup == old(game_data).setup,
        final(game_data).conquest == old(game_data).conquest,
{
    let ghost start = game_data.fleets.records@;
    let mut i: usize = 0;
    while i < fleet_indices.len()
        invariant
            i <= fleet_indices@.len(),
            forall|j: int| 0 <= j < fleet_indices@.len() ==> #[trigger] fleet_indices@[j] < start.len(),
            game_data.fleets.records@.len() == start.len(),
            forall|k: int|
                0 <= k < start.len() ==> (#[trigger] game_data.fleets.records@[k]).raw@ == if lists(
                    fleet_indices@.take(i as int),
                    k,
                ) && has_ships(start[k]) {
                    retreating(start[k].raw@, retreat_target@)
                } else {
                    start[k].raw@
                },
            game_data.player == old(game_data).player,
            game_data.planets == old(game_data).planets,
            game_data.bases == old(game_data).bases,
            game_data.ipbm == old(game_data).ipbm,
            game_data.setup == old(game_data).setup,
            game_data.conquest == old(game_data).conquest,
        decreases fleet_indices@.len() - i,
    {
        let idx = fleet_indices[i];
        let mut fleet = FleetRecord { raw: game_data.fleets.records[idx].raw };
        proof {
            assert forall|k: int| 0 <= k < start.len() implies lists(fleet_indices@.take(i + 1), k) == (
            lists(fleet_indices@.take(i as int), k) || k == idx) by {
                lemma_lists_take_step(fleet_indices@, i as int, k);
            }
        }
        if !(fleet.destroyer_count() == 0 && fleet.cruiser_count() == 0 && fleet.battleship_count() == 0
            && fleet.scout_count() == 0 && fleet.troop_transport_count() == 0 && fleet.etac_count() == 0) {
            send_fleet_home(&mut fleet, retreat_target);
            game_data.fleets.records.set(idx, fleet);
            proof {
                let r0 = start[idx as int].raw@;
                assert(retreating(retreating(r0, retreat_target@), retreat_target@) =~= retreating(
                    r0,
                    retreat_target@,
                ));
            }
        }
        i = i + 1;
    }
    assert(fleet_indices@.take(i as int) =~= fleet_indices@);
}

/// A task force retreats: each of its fleets that still has ships goes home
/// toward its empire's nearest owned world (or stays aimed at the battle
/// sector when the empire owns none); each emptied fleet is held in place.
/// Rules of engagement drop to 0 for all of them.
pub fn retreat_task_force(game_data: &mut CoreGameData, task_force: &TaskForce)
    requires
        forall|j: int|
            0 <= j < task_force.fleet_indices@.len() ==> #[trigger] task_force.fleet_indices@[j]
                < old(game_data).fleets.records@.len(),
    ensures
        final(game_data).fleets.records@.len() == old(game_data).fleets.records@.len(),
        forall|k: int|
            0 <= k < old(game_data).fleets.records@.len() ==> (#[trigger] final(game_data).fleets.records@[k]).raw@
                == if !lists(task_force.fleet_indices@, k) {
                old(game_data).fleets.records@[k].raw@
            } else if has_ships(old(game_data).fleets.records@[k]) {
                retreating(
                    old(game_data).fleets.records@[k].raw@,
                    retreat_target(old(game_data).planets.records@, task_force.empire, task_force.coords@),
                )
            } else {
                emptied_withdrawal(old(game_data).fleets.records@[k].raw@)
            },
        final(game_data).player == old(game_data).player,
        final(game_data).planets == old(game_data).planets,
        final(game_data).bases == old(game_data).bases,
        final(game_data).ipbm == old(game_data).ipbm,
        final(game_data).setup == old(game_data).setup,
        final(game_data).conquest == old(game_data).conquest,
{
    let nearest = nearest_owned_planet(game_data, task_force.empire, task_force.coords);
    let target = match nearest {
        Some(c) => c,
        None => task_force.coords,
    };
    proof {
        let planets = game_data.planets.records@;
        match nearest {
            Some(c) => {
                let i = choose|i: int|
                    #[trigger] nearest_owned_at(planets, task_force.empire, task_force.coords@, i) && c@
                        == planets[i].raw@.subrange(0, 2);
                let k = choose|k: int| nearest_owned_at(planets, task_force.empire, task_force.coords@, k);
                lemma_nearest_owned_unique(planets, task_force.empire, task_force.coords@, i, k);
            },
            None => {
                if exists|k: int| nearest_owned_at(planets, task_force.empire, task_force.coords@, k) {
                    let k = choose|k: int| nearest_owned_at(planets, task_force.empire, task_force.coords@, k);
                    assert(planets[k].raw@[0x5D] == task_force.empire);
                }
            },
        }
        assert(target@ == retreat_target(planets, task_force.empire, task_force.coords@));
    }
    let ghost start = game_data.fleets.records@;
    let ghost goal = target@;
    let mut i: usize = 0;
    while i < task_force.fleet_indices.len()
        invariant
            i <= task_force.fleet_indices@.len(),
            forall|j: int|
                0 <= j < task_force.fleet_indices@.len() ==> #[trigger] task_force.fleet_indices@[j] < start.len(),
            game_data.fleets.records@.len() == start.len(),
            goal == target@,
            forall|k: int|
                0 <= k < start.len() ==> (#[trigger] game_data.fleets.records@[k]).raw@ == if !lists(
                    task_force.fleet_indices@.take(i as int),
                    k,
                ) {
                    start[k].raw@
                } else if has_ships(start[k]) {
                    retreating(start[k].raw@, goal)
                } else {
                    emptied_withdrawal(start[k].raw@)
                },
            game_data.player == old(game_data).player,
            game_data.planets == old(game_data).planets,
            game_data.bases == old(game_data).bases,
            game_data.ipbm == old(game_data).ipbm,
            game_data.setup == old(game_data).setup,
            game_data.conquest == old(game_data).conquest,
        decreases task_force.fleet_indices@.len() - i,
    {
        let idx = task_force.fleet_indices[i];
        let mut fleet = FleetRecord { raw: game_data.fleets.records[idx].raw };
        proof {
            assert forall|k: int| 0 <= k < start.len() implies lists(task_force.fleet_indices@.take(i + 1), k) == (
            lists(task_force.fleet_indices@.take(i as int), k) || k == idx) by {
                lemma_lists_take_step(task_force.fleet_indices@, i as int, k);
            }
        }
        let r0 = Ghost(start[idx as int].raw@);
        if fleet.destroyer_count() == 0 && fleet.cruiser_count() == 0 && fleet.battleship_count() == 0
            && fleet.scout_count() == 0 && fleet.troop_transport_count() == 0 && fleet.etac_count() == 0 {
            set_fleet_to_hold_current_position(&mut fleet);
            fleet.set_rules_of_engagement(0);
            game_data.fleets.records.set(idx, fleet);
            proof {
                assert(emptied_withdrawal(emptied_withdrawal(r0@)) =~= emptied_withdrawal(r0@));
                assert(fleet.raw@ =~= emptied_withdrawal(r0@));
            }
        } else {
            send_fleet_home(&mut fleet, target);
            game_data.fleets.records.set(idx, fleet);
            proof {
                assert(retreating(retreating(r0@, goal), goal) =~= retreating(r0@, goal));
            }
        }
        i = i + 1;
    }
    assert(task_force.fleet_indices@.take(i as int) =~= task_force.fleet_indices@);
}

// ---------------------------------------------------------------------------
// Orders, missions and encounter context
// ---------------------------------------------------------------------------

/// The mission under which a fleet with `order` is reported after a battle:
/// travelling, guarding and assault orders have one; others none.
pub open spec fn mission_of_order(order: Option<FleetStandingOrderKind>) -> Option<Mission> {
    match order {
        Some(FleetStandingOrderKind::MoveOnly) => Some(Mission::MoveOnly),
        Some(FleetStandingOrderKind::SeekHome) => Some(Mission::SeekHome),
        Some(FleetStandingOrderKind::PatrolSector) => Some(Mission::PatrolSector),
        Some(FleetStandingOrderKind::ViewWorld) => Some(Mission::ViewWorld),
        Some(FleetStandingOrderKind::GuardStarbase) => Some(Mission::GuardStarbase),
        Some(FleetStandingOrderKind::GuardBlockadeWorld) => Some(Mission::GuardBlockadeWorld),
        Some(FleetStandingOrderKind::ScoutSector) => Some(Mission::ScoutSector),
        Some(FleetStandingOrderKind::ScoutSolarSystem) => Some(Mission::ScoutSolarSystem),
        Some(FleetStandingOrderKind::BombardWorld) => Some(Mission::BombardWorld),
        Some(FleetStandingOrderKind::InvadeWorld) => Some(Mission::InvadeWorld),
        Some(FleetStandingOrderKind::BlitzWorld) => Some(Mission::BlitzWorld),
        _ => None,
    }
}

/// The mission a fleet's order is reported under after a battle.
pub fn mission_kind_for_order(order: Option<FleetStandingOrderKind>) -> (r: Option<Mission>)
    ensures
        r == mission_of_order(order),
{
    match order {
        Some(FleetStandingOrderKind::MoveOnly) => Some(Mission::MoveOnly),
        Some(FleetStandingOrderKind::SeekHome) => Some(Mission::SeekHome),
        Some(FleetStandingOrderKind::PatrolSector) => Some(Mission::PatrolSector),
        Some(FleetStandingOrderKind::ViewWorld) => Some(Mission::ViewWorld),
        Some(FleetStandingOrderKind::GuardStarbase) => Some(Mission::GuardStarbase),
        Some(FleetStandingOrderKind::GuardBlockadeWorld) => Some(Mission::GuardBlockadeWorld),
        Some(FleetStandingOrderKind::ScoutSector) => Some(Mission::ScoutSector),
        Some(FleetStandingOrderKind::ScoutSolarSystem) => Some(Mission::ScoutSolarSystem),
        Some(FleetStandingOrderKind::BombardWorld) => Some(Mission::BombardWorld),
        Some(FleetStandingOrderKind::InvadeWorld) => Some(Mission::InvadeWorld),
        Some(FleetStandingOrderKind::BlitzWorld) => Some(Mission::BlitzWorld),
        _ => None,
    }
}

/// The mission under which a contact with a fleet on `order` is reported:
/// as `mission_of_order`, and also for join, rendezvous and salvage orders.
pub open spec fn contact_mission_of(order: FleetStandingOrderKind) -> Option<Mission> {
    match order {
        FleetStandingOrderKind::JoinAnotherFleet => Some(Mission::JoinAnotherFleet),
        FleetStandingOrderKind::RendezvousSector => Some(Mission::RendezvousSector),
        FleetStandingOrderKind::Salvage => Some(Mission::Salvage),
        _ => mission_of_order(Some(order)),
    }
}

/// The mission a contact with a fleet on `order` is reported under.
pub fn contact_reporting_kind(order: FleetStandingOrderKind) -> (r: Option<Mission>)
    ensures
        r == contact_mission_of(order),
{
    match order {
        FleetStandingOrderKind::MoveOnly => Some(Mission::MoveOnly),
        FleetStandingOrderKind::SeekHome => Some(Mission::SeekHome),
        FleetStandingOrderKind::PatrolSector => Some(Mission::PatrolSector),
        FleetStandingOrderKind::ViewWorld => Some(Mission::ViewWorld),
        FleetStandingOrderKind::ScoutSector => Some(Mission::ScoutSector),
        FleetStandingOrderKind::ScoutSolarSystem => Some(Mission::ScoutSolarSystem),
        FleetStandingOrderKind::BombardWorld => Some(Mission::BombardWorld),
        FleetStandingOrderKind::InvadeWorld => Some(Mission::InvadeWorld),
        FleetStandingOrderKind::BlitzWorld => Some(Mission::BlitzWorld),
        FleetStandingOrderKind::GuardStarbase => Some(Mission::GuardStarbase),
        FleetStandingOrderKind::JoinAnotherFleet => Some(Mission::JoinAnotherFleet),
        FleetStandingOrderKind::RendezvousSector => Some(Mission::RendezvousSector),
        FleetStandingOrderKind::GuardBlockadeWorld => Some(Mission::GuardBlockadeWorld),
        FleetStandingOrderKind::Salvage => Some(Mission::Salvage),
        _ => None,
    }
}

/// Whether `fleet` is in the list.
fn listed_fleet(list: &[usize], fleet: usize) -> (r: bool)
    ensures
        r == list@.contains(fleet),
{
    let mut i: usize = 0;
    while i < list.len()
        invariant
            i <= list@.len(),
            forall|j: int| 0 <= j < i ==> list@[j] != fleet,
        decreases list@.len() - i,
    {
        if list[i] == fleet {
            assert(list@[i as int] == fleet);
            return true;
        }
        i = i + 1;
    }
    false
}

/// The assault mission a fleet took part in: blitz before invasion before
/// bombardment, `None` for none of them.
pub fn mission_kind_for_fleet(
    fleet: usize,
    bombard_set: &[usize],
    invade_set: &[usize],
    blitz_set: &[usize],
) -> (r: Option<Mission>)
    ensures
        r == if blitz_set@.contains(fleet) {
            Some(Mission::BlitzWorld)
        } else if invade_set@.contains(fleet) {
            Some(Mission::InvadeWorld)
        } else if bombard_set@.contains(fleet) {
            Some(Mission::BombardWorld)
        } else {
            None
        },
{
    if listed_fleet(blitz_set, fleet) {
        Some(Mission::BlitzWorld)
    } else if listed_fleet(invade_set, fleet) {
        Some(Mission::InvadeWorld)
    } else if listed_fleet(bombard_set, fleet) {
        Some(Mission::BombardWorld)
    } else {
        None
    }
}

/// A fleet stands at its target on an order that is carried out inside a
/// star system.
pub open spec fn at_system_context(raw: Seq<u8>) -> bool {
    &&& raw[0x0B] == raw[0x20]
    &&& raw[0x0C] == raw[0x21]
    &&& match order_kind_of(raw[0x1F]) {
        FleetStandingOrderKind::SeekHome | FleetStandingOrderKind::GuardStarbase
        | FleetStandingOrderKind::GuardBlockadeWorld | FleetStandingOrderKind::BombardWorld
        | FleetStandingOrderKind::InvadeWorld | FleetStandingOrderKind::BlitzWorld
        | FleetStandingOrderKind::ViewWorld | FleetStandingOrderKind::ScoutSolarSystem
        | FleetStandingOrderKind::Salvage => true,
        _ => false,
    }
}

/// Whether the fleet has arrived on an in-system order.
pub fn fleet_is_at_system_context(fleet: &FleetRecord) -> (r: bool)
    ensures
        r == at_system_context(fleet.raw@),
{
    let coords = fleet.current_location_coords_raw();
    let target = fleet.standing_order_target_coords_raw();
    if coords[0] != target[0] || coords[1] != target[1] {
        return false;
    }
    match fleet.standing_order_kind() {
        FleetStandingOrderKind::SeekHome | FleetStandingOrderKind::GuardStarbase
        | FleetStandingOrderKind::GuardBlockadeWorld | FleetStandingOrderKind::BombardWorld
        | FleetStandingOrderKind::InvadeWorld | FleetStandingOrderKind::BlitzWorld
        | FleetStandingOrderKind::ViewWorld | FleetStandingOrderKind::ScoutSolarSystem
        | FleetStandingOrderKind::Salvage => true,
        _ => false,
    }
}

/// Some listed fleet guards a starbase or blockades a world.
pub open spec fn any_anchored_guard(fleets: Seq<FleetRecord>, indices: Seq<usize>) -> bool {
    exists|j: int|
        0 <= j < indices.len() && (order_kind_of(fleets[#[trigger] indices[j] as int].raw@[0x1F])
            == FleetStandingOrderKind::GuardStarbase || order_kind_of(
            fleets[indices[j] as int].raw@[0x1F],
        ) == FleetStandingOrderKind::GuardBlockadeWorld)
}

/// Whether some listed fleet holds a guard or blockade order.
pub fn has_anchored_guard_order(game_data: &CoreGameData, fleet_indices: &[usize]) -> (r: bool)
    requires
        forall|j: int| 0 <= j < fleet_indices@.len() ==> #[trigger] fleet_indices@[j] < game_data.fleets.records@.len(),
    ensures
        r == any_anchored_guard(game_data.fleets.records@, fleet_indices@),
{
    let mut i: usize = 0;
    while i < fleet_indices.len()
        invariant
            i <= fleet_indices@.len(),
            forall|j: int| 0 <= j < fleet_indices@.len() ==> #[trigger] fleet_indices@[j] < game_data.fleets.records@.len(),
            forall|j: int|
                0 <= j < i ==> order_kind_of(game_data.fleets.records@[#[trigger] fleet_indices@[j] as int].raw@[0x1F])
                    != FleetStandingOrderKind::GuardStarbase && order_kind_of(
                    game_data.fleets.records@[fleet_indices@[j] as int].raw@[0x1F],
                ) != FleetStandingOrderKind::GuardBlockadeWorld,
        decreases fleet_indices@.len() - i,
    {
        let idx = fleet_indices[i];
        match game_data.fleets.records[idx].standing_order_kind() {
            FleetStandingOrderKind::GuardStarbase | FleetStandingOrderKind::GuardBlockadeWorld => {
                assert(fleet_indices@[i as int] == idx);
                return true;
            },
            _ => {},
        }
        i = i + 1;
    }
    false
}

/// Some listed fleet patrols its sector.
pub open spec fn any_patrol(fleets: Seq<FleetRecord>, indices: Seq<usize>) -> bool {
    exists|j: int|
        0 <= j < indices.len() && order_kind_of(fleets[#[trigger] indices[j] as int].raw@[0x1F])
            == FleetStandingOrderKind::PatrolSector
}

/// Whether some listed fleet holds a patrol order.
pub fn has_patrol_order(game_data: &CoreGameData, fleet_indices: &[usize]) -> (r: bool)
    requires
        forall|j: int| 0 <= j < fleet_indices@.len() ==> #[trigger] fleet_indices@[j] < game_data.fleets.records@.len(),
    ensures
        r == any_patrol(game_data.fleets.records@, fleet_indices@),
{
    let mut i: usize = 0;
    while i < fleet_indices.len()
        invariant
            i <= fleet_indices@.len(),
            forall|j: int| 0 <= j < fleet_indices@.len() ==> #[trigger] fleet_indices@[j] < game_data.fleets.records@.len(),
            forall|j: int|
                0 <= j < i ==> order_kind_of(game_data.fleets.records@[#[trigger] fleet_indices@[j] as int].raw@[0x1F])
                    != FleetStandingOrderKind::PatrolSector,
        decreases fleet_indices@.len() - i,
    {
        let idx = fleet_indices[i];
        if let FleetStandingOrderKind::PatrolSector = game_data.fleets.records[idx].standing_order_kind() {
            assert(fleet_indices@[i as int] == idx);
            return true;
        }
        i = i + 1;
    }
    false
}

/// Holds each listed fleet in place where it stands.
pub fn clear_arrival_and_hold(game_data: &mut CoreGameData, fleet_indices: &[usize])
    requires
        forall|j: int| 0 <= j < fleet_indices@.len() ==> #[trigger] fleet_indices@[j] < old(game_data).fleets.records@.len(),
    ensures
        final(game_data).fleets.records@.len() == old(game_data).fleets.records@.len(),
        forall|k: int|
            0 <= k < old(game_data).fleets.records@.len() ==> (#[trigger] final(game_data).fleets.records@[k]).raw@
                == if lists(fleet_indices@, k) {
                held_in_place(old(game_data).fleets.records@[k].raw@, true)
            } else {
                old(game_data).fleets.records@[k].raw@
            },
        final(game_data).player == old(game_data).player,
        final(game_data).planets == old(game_data).planets,
        final(game_data).bases == old(game_data).bases,
        final(game_data).ipbm == old(game_data).ipbm,
        final(game_data).setup == old(game_data).setup,
        final(game_data).conquest == old(game_data).conquest,
{
    let ghost start = game_data.fleets.records@;
    let mut i: usize = 0;
    while i < fleet_indices.len()
        invariant
            i <= fleet_indices@.len(),
            forall|j: int| 0 <= j < fleet_indices@.len() ==> #[trigger] fleet_indices@[j] < start.len(),
            game_data.fleets.records@.len() == start.len(),
            forall|k: int|
                0 <= k < start.len() ==> (#[trigger] game_data.fleets.records@[k]).raw@ == if lists(
                    fleet_indices@.take(i as int),
                    k,
                ) {
                    held_in_place(start[k].raw@, true)
                } else {
                    start[k].raw@
                },
            game_data.player == old(game_data).player,
            game_data.planets == old(game_data).planets,
            game_data.bases == old(game_data).bases,
            game_data.ipbm == old(game_data).ipbm,
            game_data.setup == old(game_data).setup,
            game_data.conquest == old(game_data).conquest,
        decreases fleet_indices@.len() - i,
    {
        let idx = fleet_indices[i];
        let mut fleet = FleetRecord { raw: game_data.fleets.records[idx].raw };
        proof {
            assert forall|k: int| 0 <= k < start.len() implies lists(fleet_indices@.take(i + 1), k) == (
            lists(fleet_indices@.take(i as int), k) || k == idx) by {
                lemma_lists_take_step(fleet_indices@, i as int, k);
            }
            let r0 = start[idx as int].raw@;
            assert(held_in_place(held_in_place(r0, true), true) =~= held_in_place(r0, true));
        }
        set_fleet_to_hold_current_position(&mut fleet);
        game_data.fleets.records.set(idx, fleet);
        i = i + 1;
    }
    assert(fleet_indices@.take(i as int) =~= fleet_indices@);
}

// ---------------------------------------------------------------------------
// Spreading battle losses over fleets
// ---------------------------------------------------------------------------

/// The smaller of two counts.
pub open spec fn least(a: int, b: int) -> int {
    if a < b {
        a
    } else {
        b
    }
}

/// Hulls struck off one fleet, per class (destroyers, cruisers, battleships,
/// scouts, transports, ETACs), when `rem` of each class are still to be lost.
pub open spec fn hull_losses(raw: Seq<u8>, rem: Seq<u32>) -> Seq<int> {
    seq![
        least(rem[0] as int, le16(raw, 0x2A) as int),
        least(rem[1] as int, le16(raw, 0x28) as int),
        least(rem[2] as int, le16(raw, 0x26) as int),
        least(rem[3] as int, raw[0x24] as int),
        least(rem[4] as int, le16(raw, 0x2C) as int),
        least(rem[5] as int, le16(raw, 0x30) as int),
    ]
}

/// A fleet's record once its share of the losses is struck off: each class
/// loses as many hulls as it has, up to what is still to be lost, and each
/// transport lost takes one loaded army with it.
pub open spec fn fleet_after_losses(raw: Seq<u8>, rem: Seq<u32>) -> Seq<u8> {
    let l = hull_losses(raw, rem);
    let armies = le16(raw, 0x2E) as int;
    put16(
        put16(
            put16(
                put16(
                    put16(
                        put16(raw, 0x2A, (le16(raw, 0x2A) - l[0]) as u16),
                        0x28,
                        (le16(raw, 0x28) - l[1]) as u16,
                    ),
                    0x26,
                    (le16(raw, 0x26) - l[2]) as u16,
                ).update(0x24, (raw[0x24] - l[3]) as u8),
                0x2C,
                (le16(raw, 0x2C) - l[4]) as u16,
            ),
            0x2E,
            (if armies > l[4] { armies - l[4] } else { 0 }) as u16,
        ),
        0x30,
        (le16(raw, 0x30) - l[5]) as u16,
    )
}

/// What each class still has to lose once a fleet took its share.
pub open spec fn losses_left(raw: Seq<u8>, rem: Seq<u32>) -> Seq<u32> {
    Seq::new(6, |c: int| (rem[c] - hull_losses(raw, rem)[c]) as u32)
}

/// The fleet records and the losses still due after the first `n` listed
/// fleets, in list order, took their shares of `rem`.
pub open spec fn losses_spread(raws: Seq<Seq<u8>>, indices: Seq<usize>, rem: Seq<u32>, n: int) -> (
    Seq<Seq<u8>>,
    Seq<u32>,
)
    decreases n,
{
    if n <= 0 {
        (raws, rem)
    } else {
        let (rs, rm) = losses_spread(raws, indices, rem, n - 1);
        let k = indices[n - 1] as int;
        (rs.update(k, fleet_after_losses(rs[k], rm)), losses_left(rs[k], rm))
    }
}

/// The losses of a battle per class: destroyers, cruisers, battleships,
/// scouts, transports and ETACs that `before` had and `after` no longer has.
pub open spec fn battle_losses(before: FleetCombatState, after: FleetCombatState) -> Seq<u32> {
    seq![
        sub_or_zero(before.counts@[0], after.counts@[0]),
        sub_or_zero(before.counts@[1], after.counts@[1]),
        sub_or_zero(before.counts@[2], after.counts@[2]),
        sub_or_zero(before.counts@[4], after.counts@[4]),
        sub_or_zero(before.counts@[5], after.counts@[5]),
        sub_or_zero(before.counts@[6], after.counts@[6]),
    ]
}

fn least_u32(a: u32, b: u32) -> (r: u32)
    ensures
        r == least(a as int, b as int),
{
    if a < b {
        a
    } else {
        b
    }
}

/// Strikes this fleet's share of the remaining losses off it.
fn strike_off_losses(fleet: &mut FleetRecord, remaining: &mut [u32; 6])
    ensures
        final(fleet).raw@ == fleet_after_losses(old(fleet).raw@, old(remaining)@),
        final(remaining)@ == losses_left(old(fleet).raw@, old(remaining)@),
{
    let ghost raw0 = fleet.raw@;
    let ghost rem0 = remaining@;
    let dd_loss = least_u32(remaining[0], fleet.destroyer_count() as u32) as u16;
    fleet.set_destroyer_count(fleet.destroyer_count() - dd_loss);
    remaining[0] = remaining[0] - dd_loss as u32;
    let ca_loss = least_u32(remaining[1], fleet.cruiser_count() as u32) as u16;
    fleet.set_cruiser_count(fleet.cruiser_count() - ca_loss);
    remaining[1] = remaining[1] - ca_loss as u32;
    let bb_loss = least_u32(remaining[2], fleet.battleship_count() as u32) as u16;
    fleet.set_battleship_count(fleet.battleship_count() - bb_loss);
    remaining[2] = remaining[2] - bb_loss as u32;
    let sc_loss = least_u32(remaining[3], fleet.scout_count() as u32) as u8;
    fleet.set_scout_count(fleet.scout_count() - sc_loss);
    remaining[3] = remaining[3] - sc_loss as u32;
    let tt_loss = least_u32(remaining[4], fleet.troop_transport_count() as u32) as u16;
    fleet.set_troop_transport_count(fleet.troop_transport_count() - tt_loss);
    if tt_loss > 0 {
        fleet.set_army_count(fleet.army_count().saturating_sub(tt_loss));
    } else {
        proof {
            let r = fleet.raw@;
            assert(put16(r, 0x2E, le16(r, 0x2E)) =~= r);
        }
    }
    remaining[4] = remaining[4] - tt_loss as u32;
    let et_loss = least_u32(remaining[5], fleet.etac_count() as u32) as u16;
    fleet.set_etac_count(fleet.etac_count() - et_loss);
    remaining[5] = remaining[5] - et_loss as u32;
    proof {
        let l = hull_losses(raw0, rem0);
        assert(dd_loss == l[0]);
        assert(ca_loss == l[1]);
        assert(bb_loss == l[2]);
        assert(sc_loss == l[3]);
        assert(tt_loss == l[4]);
        assert(et_loss == l[5]);
        assert(fleet.raw@ =~= fleet_after_losses(raw0, rem0));
        assert(remaining@ =~= losses_left(raw0, rem0));
    }
}

/// Strikes a battle's losses (`before` less `after`, per class) off the
/// listed fleets, taking from each in list order as many hulls as it has
/// until a class's losses are all placed.
pub fn distribute_fleet_losses(
    game_data: &mut CoreGameData,
    fleet_indices: &[usize],
    before: &FleetCombatState,
    after: &FleetCombatState,
)
    requires
        forall|j: int| 0 <= j < fleet_indices@.len() ==> #[trigger] fleet_indices@[j] < old(game_data).fleets.records@.len(),
    ensures
        fleet_raws(final(game_data).fleets.records@) == losses_spread(
            fleet_raws(old(game_data).fleets.records@),
            fleet_indices@,
            battle_losses(*before, *after),
            fleet_indices@.len() as int,
        ).0,
        final(game_data).player == old(game_data).player,
        final(game_data).planets == old(game_data).planets,
        final(game_data).bases == old(game_data).bases,
        final(game_data).ipbm == old(game_data).ipbm,
        final(game_data).setup == old(game_data).setup,
        final(game_data).conquest == old(game_data).conquest,
{
    let mut remaining: [u32; 6] = [
        before.counts[IDX_DD].saturating_sub(after.counts[IDX_DD]),
        before.counts[IDX_CA].saturating_sub(after.counts[IDX_CA]),
        before.counts[IDX_BB].saturating_sub(after.counts[IDX_BB]),
        before.counts[IDX_SC].saturating_sub(after.counts[IDX_SC]),
        before.counts[IDX_TT].saturating_sub(after.counts[IDX_TT]),
        before.counts[IDX_ET].saturating_sub(after.counts[IDX_ET]),
    ];
    let ghost raws0 = fleet_raws(game_data.fleets.records@);
    let ghost losses = battle_losses(*before, *after);
    assert(remaining@ =~= losses);
    let mut i: usize = 0;
    while i < fleet_indices.len()
        invariant
            i <= fleet_indices@.len(),
            forall|j: int| 0 <= j < fleet_indices@.len() ==> #[trigger] fleet_indices@[j] < raws0.len(),
            game_data.fleets.records@.len() == raws0.len(),
            fleet_raws(game_data.fleets.records@) == losses_spread(raws0, fleet_indices@, losses, i as int).0,
            remaining@ == losses_spread(raws0, fleet_indices@, losses, i as int).1,
            game_data.player == old(game_data).player,
            game_data.planets == old(game_data).planets,
            game_data.bases == old(game_data).bases,
            game_data.ipbm == old(game_data).ipbm,
            game_data.setup == old(game_data).setup,
            game_data.conquest == old(game_data).conquest,
        decreases fleet_indices@.len() - i,
    {
        let idx = fleet_indices[i];
        let mut fleet = FleetRecord { raw: game_data.fleets.records[idx].raw };
        let ghost recs = game_data.fleets.records@;
        proof {
            assert(fleet_raws(recs)[idx as int] == recs[idx as int].raw@);
        }
        strike_off_losses(&mut fleet, &mut remaining);
        game_data.fleets.records.set(idx, fleet);
        proof {
            assert(fleet_raws(game_data.fleets.records@) =~= fleet_raws(recs).update(idx as int, fleet.raw@));
        }
        i = i + 1;
    }
}

// ---------------------------------------------------------------------------
// How a task force meets others
// ---------------------------------------------------------------------------

/// Where an encounter happens, as the fleets involved see it.
#[derive(Clone, Copy, Debug, PartialEq, Eq, Structural)]
pub enum EncounterContext {
    DeepSpaceTransit,
    SectorPatrol,
    SystemEntry,
}

/// Some listed fleet has arrived on an in-system order.
pub open spec fn any_at_system_context(fleets: Seq<FleetRecord>, indices: Seq<usize>) -> bool {
    exists|j: int| 0 <= j < indices.len() && at_system_context(fleets[#[trigger] indices[j] as int].raw@)
}

/// A task force is entering a system when a fleet of it has arrived on an
/// in-system order or it has starbases; failing that it patrols when a fleet
/// of it patrols; otherwise it is in transit.
pub open spec fn encounter_context_of(fleets: Seq<FleetRecord>, tf: TaskForce) -> EncounterContext {
    if any_at_system_context(fleets, tf.fleet_indices@) || tf.state.counts@[3] > 0 {
        EncounterContext::SystemEntry
    } else if any_patrol(fleets, tf.fleet_indices@) {
        EncounterContext::SectorPatrol
    } else {
        EncounterContext::DeepSpaceTransit
    }
}

/// How the task force meets others (see `encounter_context_of`).
pub fn task_force_encounter_context(game_data: &CoreGameData, task_force: &TaskForce) -> (r: EncounterContext)
    requires
        forall|j: int|
            0 <= j < task_force.fleet_indices@.len() ==> #[trigger] task_force.fleet_indices@[j]
                < game_data.fleets.records@.len(),
    ensures
        r == encounter_context_of(game_data.fleets.records@, *task_force),
{
    let mut has_system_context_fleet = false;
    let mut i: usize = 0;
    while i < task_force.fleet_indices.len()
        invariant
            i <= task_force.fleet_indices@.len(),
            forall|j: int|
                0 <= j < task_force.fleet_indices@.len() ==> #[trigger] task_force.fleet_indices@[j]
                    < game_data.fleets.records@.len(),
            has_system_context_fleet == exists|j: int|
                0 <= j < i && at_system_context(
                    game_data.fleets.records@[#[trigger] task_force.fleet_indices@[j] as int].raw@,
                ),
        decreases task_force.fleet_indices@.len() - i,
    {
        let idx = task_force.fleet_indices[i];
        if fleet_is_at_system_context(&game_data.fleets.records[idx]) {
            assert(task_force.fleet_indices@[i as int] == idx);
            has_system_context_fleet = true;
        }
        i = i + 1;
    }
    if has_system_context_fleet || task_force.state.counts[IDX_SB] > 0 {
        EncounterContext::SystemEntry
    } else if has_patrol_order(game_data, &task_force.fleet_indices) {
        EncounterContext::SectorPatrol
    } else {
        EncounterContext::DeepSpaceTransit
    }
}

/// World `i` is the first world at `coords`.
pub open spec fn first_world_at(planets: Seq<PlanetRecord>, coords: Seq<u8>, i: int) -> bool {
    &&& 0 <= i < 20
    &&& planets[i].raw@.subrange(0, 2) == coords
    &&& forall|j: int| 0 <= j < i ==> (#[trigger] planets[j]).raw@.subrange(0, 2) != coords
}

/// The owner slot of the first world at `coords`, if a world is there.
pub open spec fn world_owner_at(planets: Seq<PlanetRecord>, coords: Seq<u8>) -> Option<u8> {
    if exists|i: int| first_world_at(planets, coords, i) {
        Some(planets[choose|i: int| first_world_at(planets, coords, i)].raw@[0x5D])
    } else {
        None
    }
}

/// A task force defends its own world; else it guards when a fleet of it
/// guards a starbase or blockades; else it attacks when it has fleets; else
/// it stands aside.
pub open spec fn battle_role_of(planet_owner: Option<u8>, empire: u8, guarding: bool, fleet_count: int) -> BattleRole {
    if planet_owner == Some(empire) {
        BattleRole::IncumbentDefender
    } else if guarding {
        BattleRole::GuardingDefender
    } else if fleet_count > 0 {
        BattleRole::Attacker
    } else {
        BattleRole::Neutral
    }
}

/// The role in battle of `empire`'s fleets `fleet_indices` at `coords`.
pub fn task_force_role(game_data: &CoreGameData, empire: u8, coords: [u8; 2], fleet_indices: &[usize]) -> (r: BattleRole)
    requires
        forall|j: int| 0 <= j < fleet_indices@.len() ==> #[trigger] fleet_indices@[j] < game_data.fleets.records@.len(),
    ensures
        r == battle_role_of(
            world_owner_at(game_data.planets.records@, coords@),
            empire,
            any_anchored_guard(game_data.fleets.records@, fleet_indices@),
            fleet_indices@.len() as int,
        ),
{
    let planets = Ghost(game_data.planets.records@);
    let found = planet_idx_at_coords(game_data, coords);
    proof {
        match found {
            Some(i) => {
                assert(first_world_at(planets@, coords@, i as int));
                let k = choose|k: int| first_world_at(planets@, coords@, k);
                if k < i {
                    assert(planets@[k].raw@.subrange(0, 2) != coords@);
                } else if i < k {
                    assert(planets@[i as int].raw@.subrange(0, 2) != coords@);
                }
                assert(world_owner_at(planets@, coords@) == Some(planets@[i as int].raw@[0x5D]));
            },
            None => {
                if exists|k: int| first_world_at(planets@, coords@, k) {
                    let k = choose|k: int| first_world_at(planets@, coords@, k);
                    assert(planets@[k].raw@.subrange(0, 2) == coords@);
                }
                assert(world_owner_at(planets@, coords@) is None);
            },
        }
    }
    if let Some(i) = found {
        if game_data.planets.records[i].owner_empire_slot_raw() == empire {
            return BattleRole::IncumbentDefender;
        }
    }
    if has_anchored_guard_order(game_data, fleet_indices) {
        BattleRole::GuardingDefender
    } else if fleet_indices.len() > 0 {
        BattleRole::Attacker
    } else {
        BattleRole::Neutral
    }
}

// ---------------------------------------------------------------------------
// Orbital supremacy over a world
// ---------------------------------------------------------------------------

/// Every listed fleet is heading home under way.
pub open spec fn all_retreating(fleets: Seq<FleetRecord>, idx: Seq<usize>) -> bool {
    forall|j: int|
        0 <= j < idx.len() ==> order_kind_of(fleets[#[trigger] idx[j] as int].raw@[0x1F])
            == FleetStandingOrderKind::SeekHome && fleets[idx[j] as int].raw@[0x0A] > 0
}

/// The attack strength an entrant brings to the orbit of world `planet_idx`:
/// its fleets' warships, plus the starbases there when it owns the world.
pub open spec fn entrant_strength(gd: CoreGameData, planet_idx: int, e: (u8, Vec<usize>)) -> int {
    let p = gd.planets.records@[planet_idx];
    let starbases: u32 = if p.raw@[0x5D] == e.0 {
        friendly_starbases_in(gd.bases.records@, e.0, p.raw@.subrange(0, 2), gd.bases.records@.len() as int) as u32
    } else {
        0
    };
    listed_class_count(gd.fleets.records@, e.1@, 0) * 1 + listed_class_count(gd.fleets.records@, e.1@, 1)
        * 3 + listed_class_count(gd.fleets.records@, e.1@, 2) * 9 + starbases * 10
}

/// An entrant contends for the orbit when it brings some strength and is
/// not wholly in retreat.
pub open spec fn contends(gd: CoreGameData, planet_idx: int, e: (u8, Vec<usize>)) -> bool {
    entrant_strength(gd, planet_idx, e) > 0 && !all_retreating(gd.fleets.records@, e.1@)
}

/// Entrant `i` contends with the greatest strength of all contenders.
pub open spec fn strongest(gd: CoreGameData, planet_idx: int, entrants: Seq<(u8, Vec<usize>)>, i: int) -> bool {
    &&& 0 <= i < entrants.len()
    &&& contends(gd, planet_idx, entrants[i])
    &&& forall|j: int|
        0 <= j < entrants.len() && contends(gd, planet_idx, #[trigger] entrants[j]) ==> entrant_strength(
            gd,
            planet_idx,
            entrants[j],
        ) <= entrant_strength(gd, planet_idx, entrants[i])
}

/// Who holds the orbit of world `planet_idx`: nobody without contenders;
/// the single strongest contender; on a tie at the top, the world's owner
/// when it is among the strongest, else nobody.
pub open spec fn orbital_supremacy(gd: CoreGameData, planet_idx: int, entrants: Seq<(u8, Vec<usize>)>) -> Option<u8> {
    let owner = gd.planets.records@[planet_idx].raw@[0x5D];
    if !(exists|i: int| 0 <= i < entrants.len() && contends(gd, planet_idx, #[trigger] entrants[i])) {
        None
    } else if exists|i: int, j: int|
        i != j && #[trigger] strongest(gd, planet_idx, entrants, i) && #[trigger] strongest(
            gd,
            planet_idx,
            entrants,
            j,
        ) {
        if exists|i: int| #[trigger] strongest(gd, planet_idx, entrants, i) && entrants[i].0 == owner {
            Some(owner)
        } else {
            None
        }
    } else {
        Some(entrants[choose|i: int| strongest(gd, planet_idx, entrants, i)].0)
    }
}

proof fn lemma_friendly_starbases_bound(bases: Seq<BaseRecord>, owner: u8, coords: Seq<u8>, n: int)
    requires
        0 <= n,
    ensures
        friendly_starbases_in(bases, owner, coords, n) <= n,
    decreases n,
{
    if n > 0 {
        lemma_friendly_starbases_bound(bases, owner, coords, n - 1);
    }
}

fn all_fleets_retreating(game_data: &CoreGameData, fleet_indices: &Vec<usize>) -> (r: bool)
    requires
        forall|j: int| 0 <= j < fleet_indices@.len() ==> #[trigger] fleet_indices@[j] < game_data.fleets.records@.len(),
    ensures
        r == all_retreating(game_data.fleets.records@, fleet_indices@),
{
    let mut i: usize = 0;
    while i < fleet_indices.len()
        invariant
            i <= fleet_indices@.len(),
            forall|j: int| 0 <= j < fleet_indices@.len() ==> #[trigger] fleet_indices@[j] < game_data.fleets.records@.len(),
            forall|j: int|
                0 <= j < i ==> order_kind_of(game_data.fleets.records@[#[trigger] fleet_indices@[j] as int].raw@[0x1F])
                    == FleetStandingOrderKind::SeekHome && game_data.fleets.records@[fleet_indices@[j] as int].raw@[0x0A]
                    > 0,
        decreases fleet_indices@.len() - i,
    {
        let idx = fleet_indices[i];
        let fleet = &game_data.fleets.records[idx];
        let heading_home = match fleet.standing_order_kind() {
            FleetStandingOrderKind::SeekHome => true,
            _ => false,
        };
        if !(heading_home && fleet.current_speed() > 0) {
            assert(fleet_indices@[i as int] == idx);
            return false;
        }
        i = i + 1;
    }
    true
}

/// The empire that holds the orbit of world `planet_idx` among `entrants`,
/// each an empire with its fleets there (see `orbital_supremacy`).
pub fn select_orbital_supremacy_empire(
    game_data: &CoreGameData,
    planet_idx: usize,
    entrants: &[(u8, Vec<usize>)],
) -> (r: Option<u8>)
    requires
        planet_idx < 20,
        game_data.bases.records@.len() < 0x8000_0000,
        forall|i: int|
            0 <= i < entrants@.len() ==> (#[trigger] entrants@[i]).1@.len() < 32768 && (forall|j: int|
                0 <= j < entrants@[i].1@.len() ==> #[trigger] entrants@[i].1@[j]
                    < game_data.fleets.records@.len()),
        forall|i: int|
            0 <= i < entrants@.len() ==> entrant_strength(*game_data, planet_idx as int, #[trigger] entrants@[i])
                <= u32::MAX,
    ensures
        r == orbital_supremacy(*game_data, planet_idx as int, entrants@),
{
    let gd = Ghost(*game_data);
    let pi = Ghost(planet_idx as int);
    let coords = game_data.planets.records[planet_idx].coords_raw();
    let owner = game_data.planets.records[planet_idx].owner_empire_slot_raw();
    let mut found = false;
    let mut top: u32 = 0;
    let mut top_count: u8 = 0;
    let mut top_emp: u8 = 0;
    let mut owner_at_top = false;
    let mut i: usize = 0;
    while i < entrants.len()
        invariant
            i <= entrants@.len(),
            gd@ == *game_data,
            pi@ == planet_idx as int,
            planet_idx < 20,
            coords@ == game_data.planets.records@[planet_idx as int].raw@.subrange(0, 2),
            owner == game_data.planets.records@[planet_idx as int].raw@[0x5D],
            game_data.bases.records@.len() < 0x8000_0000,
            forall|k: int|
                0 <= k < entrants@.len() ==> (#[trigger] entrants@[k]).1@.len() < 32768 && (forall|j: int|
                    0 <= j < entrants@[k].1@.len() ==> #[trigger] entrants@[k].1@[j]
                        < game_data.fleets.records@.len()),
            forall|k: int|
                0 <= k < entrants@.len() ==> entrant_strength(gd@, pi@, #[trigger] entrants@[k]) <= u32::MAX,
            found == exists|k: int| 0 <= k < i && contends(gd@, pi@, #[trigger] entrants@[k]),
            found ==> exists|k: int|
                0 <= k < i && contends(gd@, pi@, #[trigger] entrants@[k]) && entrant_strength(gd@, pi@, entrants@[k])
                    == top,
            forall|k: int|
                0 <= k < i && contends(gd@, pi@, #[trigger] entrants@[k]) ==> entrant_strength(gd@, pi@, entrants@[k])
                    <= top,
            found ==> 1 <= top_count <= 2,
            top_count == 2 ==> exists|a: int, b: int|
                0 <= a < i && 0 <= b < i && a != b && contends(gd@, pi@, #[trigger] entrants@[a])
                    && contends(gd@, pi@, #[trigger] entrants@[b]) && entrant_strength(gd@, pi@, entrants@[a])
                    == top && entrant_strength(gd@, pi@, entrants@[b]) == top,
            found && top_count == 1 ==> forall|k: int|
                0 <= k < i && contends(gd@, pi@, #[trigger] entrants@[k]) && entrant_strength(gd@, pi@, entrants@[k])
                    == top ==> entrants@[k].0 == top_emp && (forall|k2: int|
                    0 <= k2 < i && contends(gd@, pi@, #[trigger] entrants@[k2]) && entrant_strength(
                        gd@,
                        pi@,
                        entrants@[k2],
                    ) == top ==> k2 == k),
            found ==> (owner_at_top == exists|k: int|
                0 <= k < i && contends(gd@, pi@, #[trigger] entrants@[k]) && entrant_strength(gd@, pi@, entrants@[k])
                    == top && entrants@[k].0 == owner),
        decreases entrants@.len() - i,
    {
        let empire = entrants[i].0;
        let fleet_indices = &entrants[i].1;
        let starbases = if owner == empire {
            starbase_count_at(game_data, coords, empire)
        } else {
            0
        };
        proof {
            lemma_friendly_starbases_bound(
                game_data.bases.records@,
                empire,
                coords@,
                game_data.bases.records@.len() as int,
            );
        }
        let state = fleet_state_from_records(game_data, fleet_indices, starbases);
        proof {
            assert(entrants@[i as int].1@.len() < 32768);
        }
        assert(combat_as(state.counts@) == entrant_strength(gd@, pi@, entrants@[i as int]));
        let strength = state.total_combat_as();
        let retreating = all_fleets_retreating(game_data, fleet_indices);
        if strength > 0 && !retreating {
            assert(contends(gd@, pi@, entrants@[i as int]));
            if !found || strength > top {
                found = true;
                top = strength;
                top_count = 1;
                top_emp = empire;
                owner_at_top = empire == owner;
            } else if strength == top {
                let ghost prev = choose|k: int|
                    0 <= k < i && contends(gd@, pi@, #[trigger] entrants@[k]) && entrant_strength(gd@, pi@, entrants@[k])
                        == top;
                top_count = 2;
                if empire == owner {
                    owner_at_top = true;
                }
                assert(contends(gd@, pi@, entrants@[prev]));
            }
        }
        i = i + 1;
    }
    proof {
        if found {
            let k = choose|k: int|
                0 <= k < entrants@.len() && contends(gd@, pi@, #[trigger] entrants@[k]) && entrant_strength(
                    gd@,
                    pi@,
                    entrants@[k],
                ) == top;
            assert(strongest(gd@, pi@, entrants@, k));
            assert forall|s: int| #[trigger] strongest(gd@, pi@, entrants@, s) implies entrant_strength(
                gd@,
                pi@,
                entrants@[s],
            ) == top by {
                assert(contends(gd@, pi@, entrants@[k]));
            }
        }
    }
    if !found {
        return None;
    }
    if top_count >= 2 {
        proof {
            let (a, b) = choose|a: int, b: int|
                0 <= a < entrants@.len() && 0 <= b < entrants@.len() && a != b && contends(
                    gd@,
                    pi@,
                    #[trigger] entrants@[a],
                ) && contends(gd@, pi@, #[trigger] entrants@[b]) && entrant_strength(gd@, pi@, entrants@[a])
                    == top && entrant_strength(gd@, pi@, entrants@[b]) == top;
            assert(strongest(gd@, pi@, entrants@, a));
            assert(strongest(gd@, pi@, entrants@, b));
            if owner_at_top {
                let k = choose|k: int|
                    0 <= k < entrants@.len() && contends(gd@, pi@, #[trigger] entrants@[k]) && entrant_strength(
                        gd@,
                        pi@,
                        entrants@[k],
                    ) == top && entrants@[k].0 == owner;
                assert(strongest(gd@, pi@, entrants@, k));
            }
        }
        if owner_at_top {
            return Some(owner);
        }
        return None;
    }
    proof {
        let k = choose|k: int|
            0 <= k < entrants@.len() && contends(gd@, pi@, #[trigger] entrants@[k]) && entrant_strength(
                gd@,
                pi@,
                entrants@[k],
            ) == top;
        assert(strongest(gd@, pi@, entrants@, k));
        assert forall|a: int, b: int|
            #[trigger] strongest(gd@, pi@, entrants@, a) && #[trigger] strongest(gd@, pi@, entrants@, b) implies a
            == b by {
            assert(contends(gd@, pi@, entrants@[a]));
            assert(contends(gd@, pi@, entrants@[b]));
        }
        let c = choose|c: int| strongest(gd@, pi@, entrants@, c);
        assert(entrants@[c].0 == top_emp);
    }
    Some(top_emp)
}

// ---------------------------------------------------------------------------
// Fire on landing troops
// ---------------------------------------------------------------------------

/// One fleet under the batteries' fire at a landing: up to `rem` of its
/// transports are lost, each with one army.
pub open spec fn transports_hit(raw: Seq<u8>, rem: int) -> Seq<u8> {
    let t = least(rem, le16(raw, 0x2C) as int);
    if t == 0 {
        raw
    } else {
        let armies = le16(raw, 0x2E) as int;
        put16(
            put16(raw, 0x2C, (le16(raw, 0x2C) - t) as u16),
            0x2E,
            (if armies > t { armies - t } else { 0 }) as u16,
        )
    }
}

/// The batteries fire on the listed fleets' transports in list order: the
/// fleet records after the first `n`, the shots left, and transports lost.
pub open spec fn transport_fire(raws: Seq<Seq<u8>>, idx: Seq<usize>, rem: int, n: int) -> (Seq<Seq<u8>>, int, int)
    decreases n,
{
    if n <= 0 {
        (raws, rem, 0)
    } else {
        let (rs, r, lost) = transport_fire(raws, idx, rem, n - 1);
        let k = idx[n - 1] as int;
        let t = least(r, le16(rs[k], 0x2C) as int);
        (rs.update(k, transports_hit(rs[k], r)), r - t, lost + t)
    }
}

/// One fleet under the shots left over: destroyers first, then cruisers,
/// then battleships, up to `rem` hulls in all.
pub open spec fn escorts_hit(raw: Seq<u8>, rem: int) -> (Seq<u8>, int, int, int) {
    let d = least(rem, le16(raw, 0x2A) as int);
    let c = least(rem - d, le16(raw, 0x28) as int);
    let b = least(rem - d - c, le16(raw, 0x26) as int);
    let r1 = if d > 0 { put16(raw, 0x2A, (le16(raw, 0x2A) - d) as u16) } else { raw };
    let r2 = if c > 0 { put16(r1, 0x28, (le16(raw, 0x28) - c) as u16) } else { r1 };
    let r3 = if b > 0 { put16(r2, 0x26, (le16(raw, 0x26) - b) as u16) } else { r2 };
    (r3, d, c, b)
}

/// The shots left over fall on the listed fleets' warships in list order:
/// the fleet records after the first `n`, the shots left, and destroyers,
/// cruisers and battleships lost.
pub open spec fn escort_fire(raws: Seq<Seq<u8>>, idx: Seq<usize>, rem: int, n: int) -> (
    Seq<Seq<u8>>,
    int,
    int,
    int,
    int,
)
    decreases n,
{
    if n <= 0 {
        (raws, rem, 0, 0, 0)
    } else {
        let (rs, r, dl, cl, bl) = escort_fire(raws, idx, rem, n - 1);
        let k = idx[n - 1] as int;
        let (f, d, c, b) = escorts_hit(rs[k], r);
        (rs.update(k, f), r - d - c - b, dl + d, cl + c, bl + b)
    }
}

/// The fleet records, the armies lost in landing, and the ships lost, when
/// `batteries` surviving batteries fire on a landing by the listed fleets.
pub open spec fn blitz_landing(raws: Seq<Seq<u8>>, idx: Seq<usize>, batteries: int) -> (Seq<Seq<u8>>, int, ShipLosses) {
    let (r1, rem1, tl) = transport_fire(raws, idx, batteries, idx.len() as int);
    let (r2, rem2, dl, cl, bl) = if rem1 > 0 {
        escort_fire(r1, idx, rem1, idx.len() as int)
    } else {
        (r1, rem1, 0, 0, 0)
    };
    (
        r2,
        tl + rem2,
        ShipLosses {
            destroyers: dl as u32,
            cruisers: cl as u32,
            battleships: bl as u32,
            scouts: 0,
            transports: tl as u32,
            etacs: 0,
        },
    )
}

proof fn lemma_transport_fire_bounds(raws: Seq<Seq<u8>>, idx: Seq<usize>, rem: int, n: int)
    requires
        0 <= rem,
        0 <= n <= idx.len(),
        forall|j: int| 0 <= j < idx.len() ==> #[trigger] idx[j] < raws.len(),
    ensures
        transport_fire(raws, idx, rem, n).0.len() == raws.len(),
        0 <= transport_fire(raws, idx, rem, n).1 <= rem,
        transport_fire(raws, idx, rem, n).1 + transport_fire(raws, idx, rem, n).2 == rem,
    decreases n,
{
    if n > 0 {
        lemma_transport_fire_bounds(raws, idx, rem, n - 1);
    }
}

proof fn lemma_escort_fire_bounds(raws: Seq<Seq<u8>>, idx: Seq<usize>, rem: int, n: int)
    requires
        0 <= rem,
        0 <= n <= idx.len(),
        forall|j: int| 0 <= j < idx.len() ==> #[trigger] idx[j] < raws.len(),
    ensures
        escort_fire(raws, idx, rem, n).0.len() == raws.len(),
        0 <= escort_fire(raws, idx, rem, n).1 <= rem,
        escort_fire(raws, idx, rem, n).1 + escort_fire(raws, idx, rem, n).2 + escort_fire(raws, idx, rem, n).3
            + escort_fire(raws, idx, rem, n).4 == rem,
        0 <= escort_fire(raws, idx, rem, n).2,
        0 <= escort_fire(raws, idx, rem, n).3,
        0 <= escort_fire(raws, idx, rem, n).4,
    decreases n,
{
    if n > 0 {
        lemma_escort_fire_bounds(raws, idx, rem, n - 1);
    }
}

/// The surviving batteries fire on a landing: each shot first takes a
/// transport (with its army) from the listed fleets in order, then any
/// shots left take destroyers, cruisers and battleships the same way, and
/// shots still left each kill one landing army. Returns the armies lost in
/// landing and the ships lost.
pub fn apply_blitz_landing_fire(
    game_data: &mut CoreGameData,
    fleet_indices: &[usize],
    surviving_batteries: u8,
) -> (r: (u32, ShipLosses))
    requires
        forall|j: int| 0 <= j < fleet_indices@.len() ==> #[trigger] fleet_indices@[j] < old(game_data).fleets.records@.len(),
    ensures
        ({
            let (raws, armies, losses) = blitz_landing(
                fleet_raws(old(game_data).fleets.records@),
                fleet_indices@,
                surviving_batteries as int,
            );
            &&& fleet_raws(final(game_data).fleets.records@) == raws
            &&& r.0 == armies
            &&& r.1 == losses
        }),
        final(game_data).player == old(game_data).player,
        final(game_data).planets == old(game_data).planets,
        final(game_data).bases == old(game_data).bases,
        final(game_data).ipbm == old(game_data).ipbm,
        final(game_data).setup == old(game_data).setup,
        final(game_data).conquest == old(game_data).conquest,
{
    let ghost raws0 = fleet_raws(game_data.fleets.records@);
    let ghost idx = fleet_indices@;
    let mut remaining: u32 = surviving_batteries as u32;
    let mut transports_lost: u32 = 0;
    let mut i: usize = 0;
    while i < fleet_indices.len()
        invariant
            i <= idx.len(),
            idx == fleet_indices@,
            forall|j: int| 0 <= j < idx.len() ==> #[trigger] idx[j] < raws0.len(),
            game_data.fleets.records@.len() == raws0.len(),
            fleet_raws(game_data.fleets.records@) == transport_fire(raws0, idx, surviving_batteries as int, i as int).0,
            remaining == transport_fire(raws0, idx, surviving_batteries as int, i as int).1,
            transports_lost == transport_fire(raws0, idx, surviving_batteries as int, i as int).2,
            remaining + transports_lost == surviving_batteries,
            game_data.player == old(game_data).player,
            game_data.planets == old(game_data).planets,
            game_data.bases == old(game_data).bases,
            game_data.ipbm == old(game_data).ipbm,
            game_data.setup == old(game_data).setup,
            game_data.conquest == old(game_data).conquest,
        decreases idx.len() - i,
    {
        let k = fleet_indices[i];
        let ghost recs = game_data.fleets.records@;
        let mut fleet = FleetRecord { raw: game_data.fleets.records[k].raw };
        proof {
            lemma_transport_fire_bounds(raws0, idx, surviving_batteries as int, i as int);
            assert(fleet_raws(recs)[k as int] == recs[k as int].raw@);
        }
        let tt = fleet.troop_transport_count();
        let loss = least_u32(remaining, tt as u32) as u16;
        if loss > 0 {
            fleet.set_troop_transport_count(tt - loss);
            let armies = fleet.army_count();
            fleet.set_army_count(armies.saturating_sub(loss));
            game_data.fleets.records.set(k, fleet);
            transports_lost = transports_lost + loss as u32;
            remaining = remaining - loss as u32;
            proof {
                assert(fleet_raws(game_data.fleets.records@) =~= fleet_raws(recs).update(k as int, fleet.raw@));
            }
        } else {
            proof {
                assert(fleet_raws(recs).update(k as int, recs[k as int].raw@) =~= fleet_raws(recs));
            }
        }
        i = i + 1;
    }
    let ghost r1 = fleet_raws(game_data.fleets.records@);
    let ghost rem1 = remaining as int;
    let mut dl: u32 = 0;
    let mut cl: u32 = 0;
    let mut bl: u32 = 0;
    if remaining > 0 {
        let mut i: usize = 0;
        while i < fleet_indices.len()
            invariant
                i <= idx.len(),
                idx == fleet_indices@,
                forall|j: int| 0 <= j < idx.len() ==> #[trigger] idx[j] < r1.len(),
                rem1 > 0,
                rem1 <= 255,
                game_data.fleets.records@.len() == r1.len(),
                fleet_raws(game_data.fleets.records@) == escort_fire(r1, idx, rem1, i as int).0,
                remaining == escort_fire(r1, idx, rem1, i as int).1,
                dl == escort_fire(r1, idx, rem1, i as int).2,
                cl == escort_fire(r1, idx, rem1, i as int).3,
                bl == escort_fire(r1, idx, rem1, i as int).4,
                remaining + dl + cl + bl == rem1,
                game_data.player == old(game_data).player,
                game_data.planets == old(game_data).planets,
                game_data.bases == old(game_data).bases,
                game_data.ipbm == old(game_data).ipbm,
                game_data.setup == old(game_data).setup,
                game_data.conquest == old(game_data).conquest,
            decreases idx.len() - i,
        {
            let k = fleet_indices[i];
            let ghost recs = game_data.fleets.records@;
            let mut fleet = FleetRecord { raw: game_data.fleets.records[k].raw };
            let ghost raw0 = fleet.raw@;
            proof {
                lemma_escort_fire_bounds(r1, idx, rem1, i as int);
                assert(fleet_raws(recs)[k as int] == recs[k as int].raw@);
            }
            let dd = fleet.destroyer_count();
            let d = least_u32(remaining, dd as u32) as u16;
            if d > 0 {
                fleet.set_destroyer_count(dd - d);
                dl = dl + d as u32;
                remaining = remaining - d as u32;
            }
            let ca = fleet.cruiser_count();
            let c = least_u32(remaining, ca as u32) as u16;
            if c > 0 {
                fleet.set_cruiser_count(ca - c);
                cl = cl + c as u32;
                remaining = remaining - c as u32;
            }
            let bb = fleet.battleship_count();
            let b = least_u32(remaining, bb as u32) as u16;
            if b > 0 {
                fleet.set_battleship_count(bb - b);
                bl = bl + b as u32;
                remaining = remaining - b as u32;
            }
            game_data.fleets.records.set(k, fleet);
            proof {
                let prev_rem = escort_fire(r1, idx, rem1, i as int).1;
                let hit = escorts_hit(raw0, prev_rem);
                assert(d == hit.1);
                assert(c == hit.2);
                assert(b == hit.3);
                assert(fleet.raw@ =~= hit.0);
                assert(fleet_raws(game_data.fleets.records@) =~= fleet_raws(recs).update(k as int, fleet.raw@));
            }
            i = i + 1;
        }
    }
    let landed_army_losses = transports_lost + remaining;
    (
        landed_army_losses,
        ShipLosses {
            destroyers: dl,
            cruisers: cl,
            battleships: bl,
            scouts: 0,
            transports: transports_lost,
            etacs: 0,
        },
    )
}

/// Every shot of the surviving batteries is spent exactly once at a
/// landing: the armies lost in landing plus the warships lost add up to the
/// batteries, and each transport lost is one of the armies lost.
pub proof fn lemma_landing_fire_spends_every_shot(raws: Seq<Seq<u8>>, idx: Seq<usize>, batteries: u8)
    requires
        forall|j: int| 0 <= j < idx.len() ==> #[trigger] idx[j] < raws.len(),
    ensures
        ({
            let (_, armies, losses) = blitz_landing(raws, idx, batteries as int);
            &&& armies + losses.destroyers + losses.cruisers + losses.battleships == batteries
            &&& losses.transports <= armies
        }),
{
    let n = idx.len() as int;
    lemma_transport_fire_bounds(raws, idx, batteries as int, n);
    let (r1, rem1, tl) = transport_fire(raws, idx, batteries as int, n);
    if rem1 > 0 {
        lemma_escort_fire_bounds(r1, idx, rem1, n);
    }
}

/// Hulls of loss class `c` (destroyers, cruisers, battleships, scouts,
/// transports, ETACs) in a fleet record.
pub open spec fn loss_class_count(raw: Seq<u8>, c: int) -> int {
    if c == 0 {
        le16(raw, 0x2A) as int
    } else if c == 1 {
        le16(raw, 0x28) as int
    } else if c == 2 {
        le16(raw, 0x26) as int
    } else if c == 3 {
        raw[0x24] as int
    } else if c == 4 {
        le16(raw, 0x2C) as int
    } else {
        le16(raw, 0x30) as int
    }
}

proof fn lemma_fleet_after_losses_counts(raw: Seq<u8>, rm: Seq<u32>, c: int)
    requires
        raw.len() >= 0x32,
        rm.len() == 6,
        0 <= c < 6,
    ensures
        fleet_after_losses(raw, rm).len() == raw.len(),
        loss_class_count(fleet_after_losses(raw, rm), c) == loss_class_count(raw, c) - hull_losses(raw, rm)[c],
        losses_left(raw, rm)[c] == rm[c] - hull_losses(raw, rm)[c],
{
    let l = hull_losses(raw, rm);
    let armies = le16(raw, 0x2E) as int;
    let s1 = put16(raw, 0x2A, (le16(raw, 0x2A) - l[0]) as u16);
    let s2 = put16(s1, 0x28, (le16(raw, 0x28) - l[1]) as u16);
    let s3 = put16(s2, 0x26, (le16(raw, 0x26) - l[2]) as u16);
    let s4 = s3.update(0x24, (raw[0x24] - l[3]) as u8);
    let s5 = put16(s4, 0x2C, (le16(raw, 0x2C) - l[4]) as u16);
    let s6 = put16(s5, 0x2E, (if armies > l[4] { armies - l[4] } else { 0 }) as u16);
    let s7 = put16(s6, 0x30, (le16(raw, 0x30) - l[5]) as u16);
    lemma_put16_get16(raw, 0x2A, (le16(raw, 0x2A) - l[0]) as u16);
    lemma_put16_get16(s1, 0x28, (le16(raw, 0x28) - l[1]) as u16);
    lemma_put16_get16(s2, 0x26, (le16(raw, 0x26) - l[2]) as u16);
    lemma_put16_get16(s4, 0x2C, (le16(raw, 0x2C) - l[4]) as u16);
    lemma_put16_get16(s5, 0x2E, (if armies > l[4] { armies - l[4] } else { 0 }) as u16);
    lemma_put16_get16(s6, 0x30, (le16(raw, 0x30) - l[5]) as u16);
    assert(s7 == fleet_after_losses(raw, rm));
    assert(s7[0x2A] == s1[0x2A] && s7[0x2B] == s1[0x2B]);
    assert(s7[0x28] == s2[0x28] && s7[0x29] == s2[0x29]);
    assert(s7[0x26] == s3[0x26] && s7[0x27] == s3[0x27]);
    assert(s7[0x24] == s4[0x24]);
    assert(s7[0x2C] == s5[0x2C] && s7[0x2D] == s5[0x2D]);
}

proof fn lemma_losses_spread_shape(raws: Seq<Seq<u8>>, idx: Seq<usize>, rem: Seq<u32>, n: int)
    requires
        0 <= n <= idx.len(),
        rem.len() == 6,
        forall|j: int| 0 <= j < idx.len() ==> #[trigger] idx[j] < raws.len(),
        forall|m: int| 0 <= m < raws.len() ==> (#[trigger] raws[m]).len() >= 0x32,
    ensures
        losses_spread(raws, idx, rem, n).0.len() == raws.len(),
        losses_spread(raws, idx, rem, n).1.len() == 6,
        forall|m: int|
            0 <= m < raws.len() ==> (#[trigger] losses_spread(raws, idx, rem, n).0[m]).len() == raws[m].len(),
    decreases n,
{
    if n > 0 {
        lemma_losses_spread_shape(raws, idx, rem, n - 1);
        let (rs, rm) = losses_spread(raws, idx, rem, n - 1);
        let k = idx[n - 1] as int;
        lemma_fleet_after_losses_counts(rs[k], rm, 0);
    }
}

/// Battle losses are placed in full unless the listed fleets run out: no
/// class ends up owing more than it started with, and a class that still
/// owes losses has no hull left in any listed fleet.
pub proof fn lemma_losses_placed_unless_exhausted(
    raws: Seq<Seq<u8>>,
    idx: Seq<usize>,
    rem: Seq<u32>,
    n: int,
    c: int,
)
    requires
        0 <= n <= idx.len(),
        rem.len() == 6,
        0 <= c < 6,
        forall|j: int| 0 <= j < idx.len() ==> #[trigger] idx[j] < raws.len(),
        forall|m: int| 0 <= m < raws.len() ==> (#[trigger] raws[m]).len() >= 0x32,
    ensures
        losses_spread(raws, idx, rem, n).1[c] <= rem[c],
        losses_spread(raws, idx, rem, n).1[c] > 0 ==> forall|j: int|
            0 <= j < n ==> loss_class_count(losses_spread(raws, idx, rem, n).0[#[trigger] idx[j] as int], c) == 0,
    decreases n,
{
    if n > 0 {
        lemma_losses_placed_unless_exhausted(raws, idx, rem, n - 1, c);
        lemma_losses_spread_shape(raws, idx, rem, n - 1);
        let (rs, rm) = losses_spread(raws, idx, rem, n - 1);
        let k = idx[n - 1] as int;
        lemma_fleet_after_losses_counts(rs[k], rm, c);
        let (rs2, rm2) = losses_spread(raws, idx, rem, n);
        if rm2[c] > 0 {
            assert forall|j: int| 0 <= j < n implies loss_class_count(rs2[#[trigger] idx[j] as int], c) == 0 by {
                if idx[j] as int != k {
                    assert(rs2[idx[j] as int] == rs[idx[j] as int]);
                }
            }
        }
    }
}

// ---------------------------------------------------------------------------
// Whether two task forces fight
// ---------------------------------------------------------------------------

/// Override `i` is the first one set for `from` toward `to`.
pub open spec fn first_override(overrides: Seq<DiplomacyOverride>, from: u8, to: u8, i: int) -> bool {
    &&& 0 <= i < overrides.len()
    &&& overrides[i].from_empire_raw == from
    &&& overrides[i].to_empire_raw == to
    &&& forall|j: int|
        0 <= j < i ==> !((#[trigger] overrides[j]).from_empire_raw == from && overrides[j].to_empire_raw == to)
}

/// The relation of `from` toward `to` this turn: the first override set
/// for the pair, else the relation stored in `from`'s player record.
pub open spec fn effective_relation(gd: CoreGameData, overrides: Seq<DiplomacyOverride>, from: u8, to: u8) -> Option<
    DiplomaticRelation,
> {
    if exists|i: int| first_override(overrides, from, to, i) {
        Some(overrides[choose|i: int| first_override(overrides, from, to, i)].relation)
    } else {
        stored_relation(gd, from, to)
    }
}

/// The relation of `from_empire_raw` toward `to_empire_raw` this turn.
pub fn effective_diplomatic_relation(
    game_data: &CoreGameData,
    diplomacy_overrides: &[DiplomacyOverride],
    from_empire_raw: u8,
    to_empire_raw: u8,
) -> (r: Option<DiplomaticRelation>)
    ensures
        r == effective_relation(*game_data, diplomacy_overrides@, from_empire_raw, to_empire_raw),
{
    let mut i: usize = 0;
    while i < diplomacy_overrides.len()
        invariant
            i <= diplomacy_overrides@.len(),
            forall|j: int|
                0 <= j < i ==> !((#[trigger] diplomacy_overrides@[j]).from_empire_raw == from_empire_raw
                    && diplomacy_overrides@[j].to_empire_raw == to_empire_raw),
        decreases diplomacy_overrides@.len() - i,
    {
        let d = diplomacy_overrides[i];
        if d.from_empire_raw == from_empire_raw && d.to_empire_raw == to_empire_raw {
            proof {
                assert(first_override(diplomacy_overrides@, from_empire_raw, to_empire_raw, i as int));
                let k = choose|k: int| first_override(diplomacy_overrides@, from_empire_raw, to_empire_raw, k);
                if k < i {
                    assert(diplomacy_overrides@[k].from_empire_raw == from_empire_raw);
                } else if k > i {
                    assert(diplomacy_overrides@[i as int].from_empire_raw == from_empire_raw);
                }
            }
            return Some(d.relation);
        }
        i = i + 1;
    }
    proof {
        if exists|k: int| first_override(diplomacy_overrides@, from_empire_raw, to_empire_raw, k) {
            let k = choose|k: int| first_override(diplomacy_overrides@, from_empire_raw, to_empire_raw, k);
            assert(diplomacy_overrides@[k].from_empire_raw == from_empire_raw);
        }
    }
    game_data.stored_diplomatic_relation(from_empire_raw, to_empire_raw)
}

/// Some listed fleet is set to invade, bombard or blitz a world.
pub open spec fn any_assault_posture(fleets: Seq<FleetRecord>, indices: Seq<usize>) -> bool {
    exists|j: int|
        0 <= j < indices.len() && match order_kind_of(fleets[#[trigger] indices[j] as int].raw@[0x1F]) {
            FleetStandingOrderKind::InvadeWorld | FleetStandingOrderKind::BombardWorld
            | FleetStandingOrderKind::BlitzWorld => true,
            _ => false,
        }
}

fn has_assault_posture(game_data: &CoreGameData, fleet_indices: &Vec<usize>) -> (r: bool)
    requires
        forall|j: int| 0 <= j < fleet_indices@.len() ==> #[trigger] fleet_indices@[j] < game_data.fleets.records@.len(),
    ensures
        r == any_assault_posture(game_data.fleets.records@, fleet_indices@),
{
    let mut i: usize = 0;
    while i < fleet_indices.len()
        invariant
            i <= fleet_indices@.len(),
            forall|j: int| 0 <= j < fleet_indices@.len() ==> #[trigger] fleet_indices@[j] < game_data.fleets.records@.len(),
            forall|j: int|
                0 <= j < i ==> match order_kind_of(
                    game_data.fleets.records@[#[trigger] fleet_indices@[j] as int].raw@[0x1F],
                ) {
                    FleetStandingOrderKind::InvadeWorld | FleetStandingOrderKind::BombardWorld
                    | FleetStandingOrderKind::BlitzWorld => false,
                    _ => true,
                },
        decreases fleet_indices@.len() - i,
    {
        let idx = fleet_indices[i];
        match game_data.fleets.records[idx].standing_order_kind() {
            FleetStandingOrderKind::InvadeWorld | FleetStandingOrderKind::BombardWorld
            | FleetStandingOrderKind::BlitzWorld => {
                assert(fleet_indices@[i as int] == idx);
                return true;
            },
            _ => {},
        }
        i = i + 1;
    }
    false
}

/// Why two declared enemies fight, by how each meets the other: both
/// entering a system defend it; a patrol meeting a system entry or a patrol
/// makes contact; transit meeting transit or a patrol is open enmity; a
/// system entry meeting a fleet in transit fights only when no side guards,
/// or when the fleet in transit is set to assault a world.
pub open spec fn enemy_hostility(
    lc: EncounterContext,
    rc: EncounterContext,
    guarded: bool,
    transit_assaults: bool,
) -> Option<HostilityReason> {
    match (lc, rc) {
        (EncounterContext::SystemEntry, EncounterContext::SystemEntry) => Some(HostilityReason::DefendedSystemEntry),
        (EncounterContext::SystemEntry, EncounterContext::SectorPatrol)
        | (EncounterContext::SectorPatrol, EncounterContext::SystemEntry)
        | (EncounterContext::SectorPatrol, EncounterContext::SectorPatrol) => Some(HostilityReason::PatrolContact),
        (EncounterContext::DeepSpaceTransit, EncounterContext::DeepSpaceTransit)
        | (EncounterContext::DeepSpaceTransit, EncounterContext::SectorPatrol)
        | (EncounterContext::SectorPatrol, EncounterContext::DeepSpaceTransit) => Some(HostilityReason::DeclaredEnemy),
        _ => if guarded {
            if transit_assaults {
                Some(HostilityReason::DefendedSystemEntry)
            } else {
                None
            }
        } else {
            Some(HostilityReason::DeclaredEnemy)
        },
    }
}

/// Why task forces `l` and `r` at `coords` fight, if they do: never within
/// one empire; between declared enemies (either way) as `enemy_hostility`
/// says; otherwise only when one of them owns the world there and one side
/// is entering the system.
pub open spec fn hostility_of(
    gd: CoreGameData,
    overrides: Seq<DiplomacyOverride>,
    coords: Seq<u8>,
    l: TaskForce,
    r: TaskForce,
) -> Option<HostilityReason> {
    let fleets = gd.fleets.records@;
    let lc = encounter_context_of(fleets, l);
    let rc = encounter_context_of(fleets, r);
    if l.empire == r.empire {
        None
    } else if effective_relation(gd, overrides, l.empire, r.empire) == Some(DiplomaticRelation::Enemy)
        || effective_relation(gd, overrides, r.empire, l.empire) == Some(DiplomaticRelation::Enemy) {
        let transit = if lc == EncounterContext::DeepSpaceTransit {
            l
        } else {
            r
        };
        enemy_hostility(
            lc,
            rc,
            any_anchored_guard(fleets, l.fleet_indices@) || any_anchored_guard(fleets, r.fleet_indices@),
            any_assault_posture(fleets, transit.fleet_indices@),
        )
    } else {
        match world_owner_at(gd.planets.records@, coords) {
            Some(owner) => if owner != 0 && (owner == l.empire || owner == r.empire) && (lc
                == EncounterContext::SystemEntry || rc == EncounterContext::SystemEntry) {
                Some(HostilityReason::DefendedSystemEntry)
            } else {
                None
            },
            None => None,
        }
    }
}

/// Why task forces `left` and `right` at `coords` fight, if they do (see
/// `hostility_of`).
pub fn hostility_reason_between(
    game_data: &CoreGameData,
    diplomacy_overrides: &[DiplomacyOverride],
    coords: [u8; 2],
    left: &TaskForce,
    right: &TaskForce,
) -> (r: Option<HostilityReason>)
    requires
        forall|j: int|
            0 <= j < left.fleet_indices@.len() ==> #[trigger] left.fleet_indices@[j] < game_data.fleets.records@.len(),
        forall|j: int|
            0 <= j < right.fleet_indices@.len() ==> #[trigger] right.fleet_indices@[j] < game_data.fleets.records@.len(),
    ensures
        r == hostility_of(*game_data, diplomacy_overrides@, coords@, *left, *right),
{
    if left.empire == right.empire {
        return None;
    }
    let left_context = task_force_encounter_context(game_data, left);
    let right_context = task_force_encounter_context(game_data, right);
    let left_view = effective_diplomatic_relation(game_data, diplomacy_overrides, left.empire, right.empire);
    let right_view = effective_diplomatic_relation(game_data, diplomacy_overrides, right.empire, left.empire);
    let left_enemy = match left_view {
        Some(DiplomaticRelation::Enemy) => true,
        _ => false,
    };
    let right_enemy = match right_view {
        Some(DiplomaticRelation::Enemy) => true,
        _ => false,
    };
    if left_enemy || right_enemy {
        let transit_side = if left_context == EncounterContext::DeepSpaceTransit {
            left
        } else {
            right
        };
        let guarded = has_anchored_guard_order(game_data, &left.fleet_indices)
            || has_anchored_guard_order(game_data, &right.fleet_indices);
        let assaults = has_assault_posture(game_data, &transit_side.fleet_indices);
        return match (left_context, right_context) {
            (EncounterContext::SystemEntry, EncounterContext::SystemEntry) => Some(
                HostilityReason::DefendedSystemEntry,
            ),
            (EncounterContext::SystemEntry, EncounterContext::SectorPatrol)
            | (EncounterContext::SectorPatrol, EncounterContext::SystemEntry)
            | (EncounterContext::SectorPatrol, EncounterContext::SectorPatrol) => Some(
                HostilityReason::PatrolContact,
            ),
            (EncounterContext::DeepSpaceTransit, EncounterContext::DeepSpaceTransit)
            | (EncounterContext::DeepSpaceTransit, EncounterContext::SectorPatrol)
            | (EncounterContext::SectorPatrol, EncounterContext::DeepSpaceTransit) => Some(
                HostilityReason::DeclaredEnemy,
            ),
            _ => {
                if guarded {
                    if assaults {
                        Some(HostilityReason::DefendedSystemEntry)
                    } else {
                        None
                    }
                } else {
                    Some(HostilityReason::DeclaredEnemy)
                }
            },
        };
    }
    let planets = Ghost(game_data.planets.records@);
    let found = planet_idx_at_coords(game_data, coords);
    proof {
        match found {
            Some(i) => {
                assert(first_world_at(planets@, coords@, i as int));
                let k = choose|k: int| first_world_at(planets@, coords@, k);
                if k < i {
                    assert(planets@[k].raw@.subrange(0, 2) != coords@);
                } else if i < k {
                    assert(planets@[i as int].raw@.subrange(0, 2) != coords@);
                }
            },
            None => {
                if exists|k: int| first_world_at(planets@, coords@, k) {
                    let k = choose|k: int| first_world_at(planets@, coords@, k);
                    assert(planets@[k].raw@.subrange(0, 2) == coords@);
                }
            },
        }
    }
    if let Some(i) = found {
        let owner = game_data.planets.records[i].owner_empire_slot_raw();
        if owner != 0 && (owner == left.empire || owner == right.empire) && (left_context
            == EncounterContext::SystemEntry || right_context == EncounterContext::SystemEntry) {
            return Some(HostilityReason::DefendedSystemEntry);
        }
    }
    None
}

/// Whether two task forces fight, and why, does not depend on which is
/// named first; task forces of one empire never fight.
pub proof fn lemma_hostility_symmetric(
    gd: CoreGameData,
    overrides: Seq<DiplomacyOverride>,
    coords: Seq<u8>,
    l: TaskForce,
    r: TaskForce,
)
    ensures
        hostility_of(gd, overrides, coords, l, r) == hostility_of(gd, overrides, coords, r, l),
        l.empire == r.empire ==> hostility_of(gd, overrides, coords, l, r) is None,
{
}

// ---------------------------------------------------------------------------
// Gathering task forces at a sector
// ---------------------------------------------------------------------------

/// Indices, in order, of the first `n` fleets that stand at `coords` and
/// belong to `empire`.
pub open spec fn fleets_at_of(fleets: Seq<FleetRecord>, coords: Seq<u8>, empire: u8, n: int) -> Seq<usize>
    decreases n,
{
    if n <= 0 {
        Seq::empty()
    } else {
        let rest = fleets_at_of(fleets, coords, empire, n - 1);
        let f = fleets[n - 1];
        if f.raw@.subrange(0x0B, 0x0D) == coords && f.raw@[0x02] == empire {
            rest.push((n - 1) as usize)
        } else {
            rest
        }
    }
}

/// The starbases of `empire` at `coords`.
pub open spec fn starbases_at(gd: CoreGameData, coords: Seq<u8>, empire: u8) -> u32 {
    friendly_starbases_in(gd.bases.records@, empire, coords, gd.bases.records@.len() as int) as u32
}

/// An empire takes part in the battle at `coords`: it has fleets there, or
/// it owns the world there and has starbases at it.
pub open spec fn takes_part(gd: CoreGameData, coords: Seq<u8>, empire: u8) -> bool {
    fleets_at_of(gd.fleets.records@, coords, empire, gd.fleets.records@.len() as int).len() > 0 || (
    world_owner_at(gd.planets.records@, coords) == Some(empire) && empire != 0 && starbases_at(
        gd,
        coords,
        empire,
    ) > 0)
}

/// The task force of `empire` at `coords`: its fleets there, their combat
/// state with its starbases there, its battle role, and no battle yet.
pub open spec fn task_force_of(gd: CoreGameData, coords: Seq<u8>, tf: TaskForce) -> bool {
    let idx = fleets_at_of(gd.fleets.records@, coords, tf.empire, gd.fleets.records@.len() as int);
    &&& tf.fleet_indices@ == idx
    &&& tf.coords@ == coords
    &&& (forall|k: int|
        0 <= k < 7 && k != 3 ==> #[trigger] tf.state.counts@[k] == listed_class_count(gd.fleets.records@, idx, k))
    &&& tf.state.counts@[3] == starbases_at(gd, coords, tf.empire)
    &&& (forall|k: int| 0 <= k < 7 ==> #[trigger] tf.state.fresh@[k] == tf.state.counts@[k] * fresh_per_hull(k))
    &&& tf.role == battle_role_of(
        world_owner_at(gd.planets.records@, coords),
        tf.empire,
        any_anchored_guard(gd.fleets.records@, idx),
        idx.len() as int,
    )
    &&& !tf.withdrew_under_roe
    &&& !tf.engaged_in_battle
    &&& !tf.free_hold_used
}

proof fn lemma_fleets_at_of_bounds(fleets: Seq<FleetRecord>, coords: Seq<u8>, empire: u8, n: int)
    requires
        0 <= n <= fleets.len(),
    ensures
        fleets_at_of(fleets, coords, empire, n).len() <= n,
        forall|j: int|
            0 <= j < fleets_at_of(fleets, coords, empire, n).len() ==> #[trigger] fleets_at_of(
                fleets,
                coords,
                empire,
                n,
            )[j] < n,
    decreases n,
{
    if n > 0 {
        lemma_fleets_at_of_bounds(fleets, coords, empire, n - 1);
    }
}

fn fleets_at_owned_by(game_data: &CoreGameData, coords: [u8; 2], empire: u8) -> (r: Vec<usize>)
    ensures
        r@ == fleets_at_of(game_data.fleets.records@, coords@, empire, game_data.fleets.records@.len() as int),
{
    let mut r: Vec<usize> = Vec::new();
    let mut i: usize = 0;
    while i < game_data.fleets.records.len()
        invariant
            i <= game_data.fleets.records@.len(),
            r@ == fleets_at_of(game_data.fleets.records@, coords@, empire, i as int),
        decreases game_data.fleets.records@.len() - i,
    {
        let f = &game_data.fleets.records[i];
        let c = f.current_location_coords_raw();
        if c[0] == coords[0] && c[1] == coords[1] && f.owner_empire_raw() == empire {
            assert(c@ =~= coords@);
            r.push(i);
        } else {
            assert(!(f.raw@.subrange(0x0B, 0x0D) == coords@ && f.raw@[0x02] == empire)) by {
                if f.raw@.subrange(0x0B, 0x0D) == coords@ {
                    assert(c@[0] == coords@[0] && c@[1] == coords@[1]);
                }
            }
        }
        i = i + 1;
    }
    r
}

/// The task forces at `coords`, one for each empire that takes part there,
/// in ascending order of empire.
pub fn build_task_forces_at_location(game_data: &CoreGameData, coords: [u8; 2]) -> (r: Vec<TaskForce>)
    requires
        game_data.fleets.records@.len() < 32768,
        game_data.bases.records@.len() < 0x8000_0000,
    ensures
        forall|k: int|
            0 <= k < r@.len() ==> takes_part(*game_data, coords@, (#[trigger] r@[k]).empire) && task_force_of(
                *game_data,
                coords@,
                r@[k],
            ),
        forall|j: int, k: int| 0 <= j < k < r@.len() ==> (#[trigger] r@[j]).empire < (#[trigger] r@[k]).empire,
        forall|e: u8| takes_part(*game_data, coords@, e) ==> exists|k: int| 0 <= k < r@.len() && (#[trigger] r@[k]).empire == e,
{
    let planets = Ghost(game_data.planets.records@);
    let found = planet_idx_at_coords(game_data, coords);
    proof {
        match found {
            Some(i) => {
                assert(first_world_at(planets@, coords@, i as int));
                let k = choose|k: int| first_world_at(planets@, coords@, k);
                if k < i {
                    assert(planets@[k].raw@.subrange(0, 2) != coords@);
                } else if i < k {
                    assert(planets@[i as int].raw@.subrange(0, 2) != coords@);
                }
            },
            None => {
                if exists|k: int| first_world_at(planets@, coords@, k) {
                    let k = choose|k: int| first_world_at(planets@, coords@, k);
                    assert(planets@[k].raw@.subrange(0, 2) == coords@);
                }
            },
        }
    }
    let guarded_owner: Option<u8> = match found {
        Some(i) => {
            let owner = game_data.planets.records[i].owner_empire_slot_raw();
            if owner != 0 && starbase_count_at(game_data, coords, owner) > 0 {
                Some(owner)
            } else {
                None
            }
        },
        None => None,
    };
    let mut r: Vec<TaskForce> = Vec::new();
    let mut e: u32 = 0;
    while e < 256
        invariant
            e <= 256,
            game_data.fleets.records@.len() < 32768,
            game_data.bases.records@.len() < 0x8000_0000,
            forall|x: u8|
                (guarded_owner == Some(x)) <==> (world_owner_at(game_data.planets.records@, coords@) == Some(x)
                    && x != 0 && starbases_at(*game_data, coords@, x) > 0),
            forall|k: int|
                0 <= k < r@.len() ==> takes_part(*game_data, coords@, (#[trigger] r@[k]).empire) && task_force_of(
                    *game_data,
                    coords@,
                    r@[k],
                ) && r@[k].empire < e,
            forall|j: int, k: int| 0 <= j < k < r@.len() ==> (#[trigger] r@[j]).empire < (#[trigger] r@[k]).empire,
            forall|x: u8|
                x < e && takes_part(*game_data, coords@, x) ==> exists|k: int|
                    0 <= k < r@.len() && (#[trigger] r@[k]).empire == x,
        decreases 256 - e,
    {
        let empire = e as u8;
        let fleet_indices = fleets_at_owned_by(game_data, coords, empire);
        let guards = match guarded_owner {
            Some(o) => o == empire,
            None => false,
        };
        if fleet_indices.len() > 0 || guards {
            proof {
                lemma_fleets_at_of_bounds(
                    game_data.fleets.records@,
                    coords@,
                    empire,
                    game_data.fleets.records@.len() as int,
                );
                lemma_friendly_starbases_bound(
                    game_data.bases.records@,
                    empire,
                    coords@,
                    game_data.bases.records@.len() as int,
                );
            }
            let starbases = starbase_count_at(game_data, coords, empire);
            let role = task_force_role(game_data, empire, coords, &fleet_indices);
            let state = fleet_state_from_records(game_data, &fleet_indices, starbases);
            let tf = TaskForce {
                empire,
                fleet_indices,
                coords,
                state,
                role,
                withdrew_under_roe: false,
                engaged_in_battle: false,
                free_hold_used: false,
            };
            let ghost before = r@;
            r.push(tf);
            proof {
                assert(r@[r@.len() - 1] == tf);
                assert forall|x: u8| x < e + 1 && takes_part(*game_data, coords@, x) implies exists|k: int|
                    0 <= k < r@.len() && (#[trigger] r@[k]).empire == x by {
                    if x < e {
                        let k = choose|k: int| 0 <= k < before.len() && (#[trigger] before[k]).empire == x;
                        assert(r@[k] == before[k]);
                    } else {
                        assert(r@[r@.len() - 1].empire == x);
                    }
                }
            }
        } else {
            proof {
                assert(!takes_part(*game_data, coords@, empire));
                assert forall|x: u8| x < e + 1 && takes_part(*game_data, coords@, x) implies exists|k: int|
                    0 <= k < r@.len() && (#[trigger] r@[k]).empire == x by {
                    if x == e {
                        assert(x == empire);
                    }
                }
            }
        }
        e = e + 1;
    }
    r
}

/// What the fleet-battle phase reports.
#[derive(Debug, Clone, Default)]
pub struct FleetBattlePhaseEvents {
    pub fleet_battle_events: Vec<FleetBattleEvent>,
    pub fleet_destroyed_events: Vec<FleetDestroyedEvent>,
    pub starbase_destroyed_events: Vec<StarbaseDestroyedEvent>,
    pub scout_contact_events: Vec<ScoutContactEvent>,
    pub encounter_disposition_events: Vec<EncounterDispositionEvent>,
    pub mission_events: Vec<MissionEvent>,
}

/// The one fleet of `tf` that can be named, if exactly one holds ships.
pub open spec fn named_target_id(game: CoreGameData, tf: TaskForce) -> Option<u8> {
    if named_fleet_ids(game.fleets.records@, tf.fleet_indices@).len() == 1 {
        Some(named_fleet_ids(game.fleets.records@, tf.fleet_indices@)[0])
    } else {
        None
    }
}

/// A contact report by `viewer` through `source` of the task force
/// `target` at `coords`, with its vessels by size.
pub open spec fn contact_report(
    game: CoreGameData,
    viewer: u8,
    source: ContactReportSource,
    reporting: Option<u8>,
    coords: [u8; 2],
    target: TaskForce,
) -> ScoutContactEvent {
    ScoutContactEvent {
        viewer_empire_raw: viewer,
        source,
        reporting_fleet_id: reporting,
        coords,
        target_empire_raw: target.empire,
        target_fleet_id: named_target_id(game, target),
        small_vessels: (target.state.counts@[0] + target.state.counts@[4] + target.state.counts@[5]
            + target.state.counts@[6]) as u32,
        medium_vessels: target.state.counts@[1],
        large_vessels: target.state.counts@[2],
        stardate_week: None,
    }
}

/// The reports of the fleets of `tf`, one per fleet in order: by mission
/// where the fleet's order reports contacts, else by fleet id.
pub open spec fn fleet_contact_reports(game: CoreGameData, coords: [u8; 2], tf: TaskForce, target: TaskForce) -> Seq<
    ScoutContactEvent,
> {
    Seq::new(
        tf.fleet_indices@.len(),
        |k: int|
            {
                let raw = game.fleets.records@[tf.fleet_indices@[k] as int].raw@;
                contact_report(
                    game,
                    raw[0x02],
                    match contact_mission_of(order_kind_of(raw[0x1F])) {
                        Some(m) => ContactReportSource::FleetMission(m),
                        None => ContactReportSource::Fleet(raw[0x05]),
                    },
                    Some(raw[0x05]),
                    coords,
                    target,
                )
            },
    )
}

/// The reports of the active starbases of `tf`'s empire at `coords`, among
/// the first `n` base records, in order.
pub open spec fn base_contact_reports(game: CoreGameData, coords: [u8; 2], tf: TaskForce, target: TaskForce, n: int) -> Seq<
    ScoutContactEvent,
>
    decreases n,
{
    if n <= 0 {
        Seq::empty()
    } else {
        let raw = game.bases.records@[n - 1].raw@;
        base_contact_reports(game, coords, tf, target, n - 1) + if raw[0x0B] == coords@[0] && raw[0x0C] == coords@[1]
            && raw[0x22] == tf.empire && raw[0x02] != 0 {
            seq![contact_report(game, tf.empire, ContactReportSource::Starbase(raw[0x04]), None, coords, target)]
        } else {
            Seq::empty()
        }
    }
}

/// Reports the task force `target` as seen by each fleet of `task_force` and
/// by each active starbase of its empire at `coords`.
pub fn push_contact_event_for_task_force(
    events: &mut FleetBattlePhaseEvents,
    game_data: &CoreGameData,
    coords: [u8; 2],
    task_force: &TaskForce,
    target_task_force: &TaskForce,
)
    requires
        forall|k: int|
            0 <= k < task_force.fleet_indices@.len() ==> #[trigger] task_force.fleet_indices@[k]
                < game_data.fleets.records@.len(),
        target_task_force.state.counts@[0] + target_task_force.state.counts@[4] + target_task_force.state.counts@[5]
            + target_task_force.state.counts@[6] <= u32::MAX,
    ensures
        final(events).scout_contact_events@ == old(events).scout_contact_events@ + fleet_contact_reports(
            *game_data,
            coords,
            *task_force,
            *target_task_force,
        ) + base_contact_reports(
            *game_data,
            coords,
            *task_force,
            *target_task_force,
            game_data.bases.records@.len() as int,
        ),
        final(events).fleet_battle_events == old(events).fleet_battle_events,
        final(events).fleet_destroyed_events == old(events).fleet_destroyed_events,
        final(events).starbase_destroyed_events == old(events).starbase_destroyed_events,
        final(events).encounter_disposition_events == old(events).encounter_disposition_events,
        final(events).mission_events == old(events).mission_events,
{
    let (small_vessels, medium_vessels, large_vessels) = vessel_size_summary(&target_task_force.state);
    let target_fleet_id = single_named_fleet_id(game_data, target_task_force.fleet_indices.as_slice());
    let ghost start = events.scout_contact_events@;
    let mut k: usize = 0;
    while k < task_force.fleet_indices.len()
        invariant
            k <= task_force.fleet_indices@.len(),
            forall|q: int|
                0 <= q < task_force.fleet_indices@.len() ==> #[trigger] task_force.fleet_indices@[q]
                    < game_data.fleets.records@.len(),
            small_vessels == (target_task_force.state.counts@[0] + target_task_force.state.counts@[4]
                + target_task_force.state.counts@[5] + target_task_force.state.counts@[6]) as u32,
            medium_vessels == target_task_force.state.counts@[1],
            large_vessels == target_task_force.state.counts@[2],
            target_fleet_id == named_target_id(*game_data, *target_task_force),
            events.scout_contact_events@ == start + fleet_contact_reports(
                *game_data,
                coords,
                *task_force,
                *target_task_force,
            ).take(k as int),
            events.fleet_battle_events == old(events).fleet_battle_events,
            events.fleet_destroyed_events == old(events).fleet_destroyed_events,
            events.starbase_destroyed_events == old(events).starbase_destroyed_events,
            events.encounter_disposition_events == old(events).encounter_disposition_events,
            events.mission_events == old(events).mission_events,
            start == old(events).scout_contact_events@,
        decreases task_force.fleet_indices@.len() - k,
    {
        let fleet = &game_data.fleets.records[task_force.fleet_indices[k]];
        let source = match contact_reporting_kind(fleet.standing_order_kind()) {
            Some(m) => ContactReportSource::FleetMission(m),
            None => ContactReportSource::Fleet(fleet.fleet_id()),
        };
        events.scout_contact_events.push(
            ScoutContactEvent {
                viewer_empire_raw: fleet.owner_empire_raw(),
                source,
                reporting_fleet_id: Some(fleet.fleet_id()),
                coords,
                target_empire_raw: target_task_force.empire,
                target_fleet_id,
                small_vessels,
                medium_vessels,
                large_vessels,
                stardate_week: None,
            },
        );
        proof {
            assert(events.scout_contact_events@ =~= start + fleet_contact_reports(
                *game_data,
                coords,
                *task_force,
                *target_task_force,
            ).take(k + 1));
        }
        k = k + 1;
    }
    let ghost mid = events.scout_contact_events@;
    proof {
        assert(fleet_contact_reports(*game_data, coords, *task_force, *target_task_force).take(
            task_force.fleet_indices@.len() as int,
        ) =~= fleet_contact_reports(*game_data, coords, *task_force, *target_task_force));
    }
    let mut b: usize = 0;
    while b < game_data.bases.records.len()
        invariant
            b <= game_data.bases.records@.len(),
            small_vessels == (target_task_force.state.counts@[0] + target_task_force.state.counts@[4]
                + target_task_force.state.counts@[5] + target_task_force.state.counts@[6]) as u32,
            medium_vessels == target_task_force.state.counts@[1],
            large_vessels == target_task_force.state.counts@[2],
            target_fleet_id == named_target_id(*game_data, *target_task_force),
            events.scout_contact_events@ == mid + base_contact_reports(
                *game_data,
                coords,
                *task_force,
                *target_task_force,
                b as int,
            ),
            events.fleet_battle_events == old(events).fleet_battle_events,
            events.fleet_destroyed_events == old(events).fleet_destroyed_events,
            events.starbase_destroyed_events == old(events).starbase_destroyed_events,
            events.encounter_disposition_events == old(events).encounter_disposition_events,
            events.mission_events == old(events).mission_events,
        decreases game_data.bases.records@.len() - b,
    {
        let base = &game_data.bases.records[b];
        let c = base.coords_raw();
        if c[0] == coords[0] && c[1] == coords[1] && base.owner_empire_raw() == task_force.empire
            && base.active_flag_raw() != 0 {
            events.scout_contact_events.push(
                ScoutContactEvent {
                    viewer_empire_raw: task_force.empire,
                    source: ContactReportSource::Starbase(base.base_id_raw()),
                    reporting_fleet_id: None,
                    coords,
                    target_empire_raw: target_task_force.empire,
                    target_fleet_id,
                    small_vessels,
                    medium_vessels,
                    large_vessels,
                    stardate_week: None,
                },
            );
        }
        proof {
            assert(events.scout_contact_events@ =~= mid + base_contact_reports(
                *game_data,
                coords,
                *task_force,
                *target_task_force,
                b + 1,
            ));
        }
        b = b + 1;
    }
}

} // verus!
