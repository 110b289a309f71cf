//! Seeded map generation: the random stream, world potentials and the
//! fallback placements used when random placement finds no free sector.
pub use crate::map_dimensions::map_size_for_player_count;
use vstd::prelude::*;

verus! {

/// A generated neutral world.
#[derive(Debug, Clone, Copy, PartialEq, Eq)]
pub struct GeneratedWorld {
    pub coords: [u8; 2],
    pub potential_production: u8,
}

/// A generated map: its seed and size, the homeworlds and the neutral worlds.
#[derive(Debug, Clone, PartialEq, Eq)]
pub struct GeneratedMap {
    pub seed: u64,
    pub map_size: u8,
    pub homeworld_coords: Vec<[u8; 2]>,
    pub neutral_worlds: Vec<GeneratedWorld>,
}

// ---------------------------------------------------------------------------
// The random stream
// ---------------------------------------------------------------------------

/// 2^64.
pub open spec fn two64() -> int {
    0x1_0000_0000_0000_0000
}

/// The stream's multiplier.
pub open spec fn lcg_mul() -> int {
    6364136223846793005
}

/// The state after one step: `state * 6364136223846793005 +
/// 1442695040888963407`, modulo 2^64.
pub open spec fn lcg_next(s: u64) -> u64 {
    ((s as int * lcg_mul() + 1442695040888963407) % two64()) as u64
}

/// The first state for `seed`: `seed * 6364136223846793005 + 1`, modulo 2^64.
pub open spec fn lcg_seed(seed: u64) -> u64 {
    ((seed as int * lcg_mul() + 1) % two64()) as u64
}

/// The number a state gives: its upper 32 bits.
pub open spec fn lcg_output(s: u64) -> u32 {
    (s as int / 0x1_0000_0000) as u32
}

/// The state after `k` steps from `s`.
pub open spec fn lcg_after(s: u64, k: nat) -> u64
    decreases k,
{
    if k == 0 {
        s
    } else {
        lcg_next(lcg_after(s, (k - 1) as nat))
    }
}

/// The `k`-th number drawn (`k >= 1`) from state `s`.
pub open spec fn lcg_draw(s: u64, k: nat) -> u32 {
    lcg_output(lcg_after(s, k))
}

/// The linear congruential generator behind map generation.
#[derive(Debug, Clone)]
pub struct Lcg {
    pub state: u64,
}

proof fn lemma_wrapping_affine(s: u64, a: u64, c: u64)
    ensures
        (((s as int * a as int) % two64()) + c) % two64() == (s as int * a as int + c) % two64(),
        (s as int * a as int) % two64() + c < two64() ==> (((s as int * a as int) % two64()) + c)
            % two64() == ((s as int * a as int) % two64()) + c,
{
    vstd::arithmetic::div_mod::lemma_add_mod_noop(s as int * a as int, c as int, two64());
    vstd::arithmetic::div_mod::lemma_small_mod(c as nat, two64() as nat);
    vstd::arithmetic::div_mod::lemma_mod_bound(s as int * a as int, two64());
    if (s as int * a as int) % two64() + c < two64() {
        vstd::arithmetic::div_mod::lemma_small_mod(
            ((s as int * a as int) % two64() + c) as nat,
            two64() as nat,
        );
    }
}

/// `x.wrapping_mul(a).wrapping_add(c)`, modulo 2^64.
fn affine_step(x: u64, a: u64, c: u64) -> (r: u64)
    ensures
        r == ((x as int * a as int + c) % two64()) as u64,
{
    let m = x.wrapping_mul(a);
    let r = m.wrapping_add(c);
    proof {
        lemma_wrapping_affine(x, a, c);
        vstd::arithmetic::div_mod::lemma_mod_bound(x as int * a as int, two64());
        if m as int + c as int > u64::MAX {
            vstd::arithmetic::div_mod::lemma_mod_add_multiples_vanish(
                (m as int + c as int - two64()),
                two64(),
            );
            vstd::arithmetic::div_mod::lemma_small_mod(
                (m as int + c as int - two64()) as nat,
                two64() as nat,
            );
        }
    }
    r
}

impl Lcg {
    /// A generator seeded with `seed`.
    pub fn new(seed: u64) -> (r: Self)
        ensures
            r.state == lcg_seed(seed),
    {
        Self { state: affine_step(seed, 6364136223846793005, 1) }
    }

    /// Steps the state and returns its upper 32 bits.
    pub fn next_u32(&mut self) -> (r: u32)
        ensures
            final(self).state == lcg_next(old(self).state),
            r == lcg_output(final(self).state),
    {
        self.state = affine_step(self.state, 6364136223846793005, 1442695040888963407);
        let s = self.state;
        let r = (s >> 32) as u32;
        assert(r == lcg_output(s)) by {
            assert((s >> 32) == s / 0x1_0000_0000) by (bit_vector);
        }
        r
    }

    /// The low byte of the next 32-bit number.
    pub fn next_u8(&mut self) -> (r: u8)
        ensures
            final(self).state == lcg_next(old(self).state),
            r == lcg_output(final(self).state) % 256,
    {
        let x = self.next_u32();
        let r = (x & 0xFF) as u8;
        assert(r == x % 256) by {
            assert((x & 0xFF) == x % 256) by (bit_vector);
        }
        r
    }

    /// A number in `min..=max` from the next byte; `min` itself, drawing
    /// nothing, when the range holds one number or none.
    pub fn range_u8(&mut self, min: u8, max: u8) -> (r: u8)
        requires
            min < max ==> max - min < 255,
        ensures
            min >= max ==> r == min && final(self).state == old(self).state,
            min < max ==> final(self).state == lcg_next(old(self).state) && r == min + (
            lcg_output(final(self).state) as int % 256) % (max - min + 1),
            min < max ==> min <= r <= max,
    {
        if min >= max {
            return min;
        }
        let span = max - min + 1;
        min + (self.next_u8() % span)
    }
}

// ---------------------------------------------------------------------------
// Frontier potentials
// ---------------------------------------------------------------------------

/// Potential of frontier world `idx` from its drawn number `r`: the first
/// 130..=150, the second 100..=120, every third after that 35..=59, the
/// others 60..=99.
pub open spec fn frontier_value(idx: int, r: u32) -> u8 {
    let b = (r as int % 256);
    let v = if idx == 0 {
        130 + b % 21
    } else if idx == 1 {
        100 + b % 21
    } else if idx % 3 == 0 {
        35 + b % 25
    } else {
        60 + b % 40
    };
    (if v > 150 {
        150
    } else {
        v
    }) as u8
}

/// The potentials before shuffling, drawn from state `s`.
pub open spec fn frontier_draws(s: u64, count: nat) -> Seq<u8> {
    Seq::new(count, |i: int| frontier_value(i, lcg_draw(s, (i + 1) as nat)))
}

/// `v` with positions `a` and `b` exchanged.
pub open spec fn swap_at(v: Seq<u8>, a: int, b: int) -> Seq<u8> {
    v.update(a, v[b]).update(b, v[a])
}

/// The first `k` shuffle swaps: swap `i` exchanges position `i` with the
/// next drawn number modulo the count.
pub open spec fn frontier_shuffle(v: Seq<u8>, s: u64, count: nat, k: nat) -> Seq<u8>
    decreases k,
{
    if k == 0 {
        v
    } else {
        let prev = frontier_shuffle(v, s, count, (k - 1) as nat);
        swap_at(
            prev,
            k - 1,
            lcg_draw(s, count + k) as int % (if count > 0 { count as int } else { 1 }),
        )
    }
}

/// The frontier potentials drawn from state `s`: drawn one per world, then
/// shuffled.
pub open spec fn frontier_values(s: u64, count: nat) -> Seq<u8> {
    frontier_shuffle(frontier_draws(s, count), s, count, count)
}

proof fn lemma_swap_multiset(v: Seq<u8>, a: int, b: int)
    requires
        0 <= a < v.len(),
        0 <= b < v.len(),
    ensures
        swap_at(v, a, b).to_multiset() == v.to_multiset(),
        swap_at(v, a, b).len() == v.len(),
        forall|i: int| 0 <= i < v.len() ==> v.contains(#[trigger] swap_at(v, a, b)[i]),
{
    broadcast use vstd::seq_lib::to_multiset_update, vstd::multiset::group_multiset_properties;

    let w = v.update(a, v[b]);
    assert(w.to_multiset() == v.to_multiset().insert(v[b]).remove(v[a]));
    assert(swap_at(v, a, b).to_multiset() == w.to_multiset().insert(v[a]).remove(w[b]));
    assert(v.to_multiset().count(v[a]) > 0) by {
        vstd::seq_lib::to_multiset_contains(v, v[a]);
    }
    assert(swap_at(v, a, b).to_multiset() =~= v.to_multiset());
    assert forall|i: int| 0 <= i < v.len() implies v.contains(#[trigger] swap_at(v, a, b)[i]) by {
        if i == b {
            assert(swap_at(v, a, b)[i] == v[a]);
        } else if i == a {
            assert(swap_at(v, a, b)[i] == v[b]);
        } else {
            assert(swap_at(v, a, b)[i] == v[i]);
        }
    }
}

/// Shuffling only reorders the drawn potentials.
pub proof fn lemma_frontier_shuffle_permutes(v: Seq<u8>, s: u64, count: nat, k: nat)
    requires
        v.len() == count,
        k <= count,
    ensures
        frontier_shuffle(v, s, count, k).len() == count,
        frontier_shuffle(v, s, count, k).to_multiset() == v.to_multiset(),
        forall|i: int| 0 <= i < count ==> v.contains(#[trigger] frontier_shuffle(v, s, count, k)[i]),
    decreases k,
{
    if k > 0 {
        let prev = frontier_shuffle(v, s, count, (k - 1) as nat);
        lemma_frontier_shuffle_permutes(v, s, count, (k - 1) as nat);
        let j = lcg_draw(s, count + k) as int % (count as int);
        lemma_swap_multiset(prev, k - 1, j);
        assert forall|i: int| 0 <= i < count implies v.contains(
            #[trigger] frontier_shuffle(v, s, count, k)[i],
        ) by {
            assert(prev.contains(swap_at(prev, k - 1, j)[i]));
            let m = choose|m: int| 0 <= m < prev.len() && prev[m] == swap_at(prev, k - 1, j)[i];
            assert(v.contains(frontier_shuffle(v, s, count, (k - 1) as nat)[m]));
        }
    } else {
        assert forall|i: int| 0 <= i < count implies v.contains(
            #[trigger] frontier_shuffle(v, s, count, k)[i],
        ) by {
            assert(frontier_shuffle(v, s, count, k)[i] == v[i]);
        }
    }
}

/// Every frontier potential lies in 35..=150, and the shuffle only
/// reorders the drawn values.
pub proof fn lemma_frontier_values_range(s: u64, count: nat)
    ensures
        frontier_values(s, count).len() == count,
        frontier_values(s, count).to_multiset() == frontier_draws(s, count).to_multiset(),
        forall|i: int| 0 <= i < count ==> 35 <= #[trigger] frontier_values(s, count)[i] <= 150,
{
    let v = frontier_draws(s, count);
    lemma_frontier_shuffle_permutes(v, s, count, count);
    assert forall|i: int| 0 <= i < count implies 35 <= #[trigger] frontier_values(s, count)[i]
        <= 150 by {
        assert(v.contains(frontier_values(s, count)[i]));
        let j = choose|j: int| 0 <= j < v.len() && v[j] == frontier_values(s, count)[i];
        assert(35 <= v[j] <= 150);
    }
}

/// Potentials for `count` frontier worlds, drawn from `rng`, then shuffled
/// by `count` further draws.
pub fn frontier_potentials(count: usize, rng: &mut Lcg) -> (r: Vec<u8>)
    ensures
        r@ == frontier_values(old(rng).state, count as nat),
        final(rng).state == lcg_after(old(rng).state, (2 * count) as nat),
{
    let ghost s0 = rng.state;
    let mut values: Vec<u8> = Vec::new();
    let mut idx: usize = 0;
    while idx < count
        invariant
            idx <= count,
            values@.len() == idx,
            rng.state == lcg_after(s0, idx as nat),
            forall|i: int| 0 <= i < idx ==> values@[i] == frontier_value(i, lcg_draw(s0, (i + 1) as nat)),
        decreases count - idx,
    {
        let b = rng.next_u8();
        let value: u8 = if idx == 0 {
            130 + (b % 21)
        } else if idx == 1 {
            100 + (b % 21)
        } else if idx % 3 == 0 {
            35 + (b % 25)
        } else {
            60 + (b % 40)
        };
        values.push(if value < 150 { value } else { 150 });
        idx = idx + 1;
    }
    assert(values@ =~= frontier_draws(s0, count as nat));
    let ghost drawn = values@;
    let modulus: usize = if count > 1 {
        count
    } else {
        1
    };
    let mut idx: usize = 0;
    while idx < count
        invariant
            idx <= count,
            modulus == if count > 0 { count } else { 1 },
            drawn == frontier_draws(s0, count as nat),
            values@ == frontier_shuffle(drawn, s0, count as nat, idx as nat),
            values@.len() == count,
            rng.state == lcg_after(s0, (count + idx) as nat),
        decreases count - idx,
    {
        let swap = (rng.next_u32() as usize) % modulus;
        let a = values[idx];
        let b = values[swap];
        values.set(idx, b);
        values.set(swap, a);
        idx = idx + 1;
        proof {
            assert(values@ =~= frontier_shuffle(drawn, s0, count as nat, idx as nat));
        }
    }
    values
}

// ---------------------------------------------------------------------------
// Fallback placements
// ---------------------------------------------------------------------------

/// `v` held within `lo..=hi`.
pub open spec fn clamp_int(v: int, lo: int, hi: int) -> int {
    if v < lo {
        lo
    } else if v > hi {
        hi
    } else {
        v
    }
}

/// Sector (x, y) is already taken.
pub open spec fn sector_used(used: Seq<[u8; 2]>, x: int, y: int) -> bool {
    exists|i: int| 0 <= i < used.len() && #[trigger] used[i]@[0] == x && used[i]@[1] == y
}

/// Whether sector (x, y) is listed in `used`.
fn is_used(used: &[[u8; 2]], x: u8, y: u8) -> (r: bool)
    ensures
        r == sector_used(used@, x as int, y as int),
{
    let mut i: usize = 0;
    while i < used.len()
        invariant
            i <= used@.len(),
            forall|k: int| 0 <= k < i ==> !(#[trigger] used@[k]@[0] == x && used@[k]@[1] == y),
        decreases used@.len() - i,
    {
        let c = used[i];
        if c[0] == x && c[1] == y {
            return true;
        }
        i = i + 1;
    }
    false
}

/// Candidate `t` (0..81) near a homeworld: offsets -4..=4 in x, then in y,
/// kept inside the map's border.
pub open spec fn local_candidate(home: Seq<u8>, size: int, t: int) -> (int, int) {
    (clamp_int(home[0] + t / 9 - 4, 1, size - 2), clamp_int(home[1] + t % 9 - 4, 1, size - 2))
}

/// Candidate `t` is free and not the homeworld itself.
pub open spec fn local_free(home: Seq<u8>, size: int, used: Seq<[u8; 2]>, t: int) -> bool {
    let c = local_candidate(home, size, t);
    !sector_used(used, c.0, c.1) && !(c.0 == home[0] && c.1 == home[1])
}

/// A free local candidate is a sector inside the map's border (1 to
/// size - 2 on each axis), no listed sector and not the homeworld; for a
/// homeworld inside the border it is at most four sectors away on each axis.
pub proof fn lemma_local_candidate_free(home: Seq<u8>, size: int, used: Seq<[u8; 2]>, t: int)
    requires
        size >= 3,
        home.len() == 2,
        0 <= t < 81,
        local_free(home, size, used, t),
    ensures
        ({
            let c = local_candidate(home, size, t);
            &&& 1 <= c.0 <= size - 2 && 1 <= c.1 <= size - 2
            &&& forall|i: int| 0 <= i < used.len() ==> !((#[trigger] used[i])@[0] == c.0 && used[i]@[1] == c.1)
            &&& !(c.0 == home[0] && c.1 == home[1])
            &&& 1 <= home[0] <= size - 2 ==> -4 <= c.0 - home[0] <= 4
            &&& 1 <= home[1] <= size - 2 ==> -4 <= c.1 - home[1] <= 4
        }),
{
    assert(0 <= t / 9 <= 8 && 0 <= t % 9 <= 8);
}

/// A free frontier candidate of ring `ring` is a sector inside the map's
/// border, at most `ring` sectors from the centre on each axis, and no
/// listed sector.
pub proof fn lemma_frontier_candidate_free(size: int, used: Seq<[u8; 2]>, ring: int, dx: int, dy: int)
    requires
        size >= 3,
        ring >= 0,
        in_ring(ring, dx, dy),
        frontier_free(size, used, dx, dy),
    ensures
        ({
            let c = frontier_candidate(size, dx, dy);
            &&& 1 <= c.0 <= size - 2 && 1 <= c.1 <= size - 2
            &&& forall|i: int| 0 <= i < used.len() ==> !((#[trigger] used[i])@[0] == c.0 && used[i]@[1] == c.1)
            &&& -ring <= c.0 - size / 2 <= ring && -ring <= c.1 - size / 2 <= ring
        }),
{
}

/// The first free sector within four of `home` (x offset outer, y offset
/// inner, each from -4 to 4), or (1, 1) when there is none.
pub fn fallback_local_world(home: [u8; 2], map_size: u8, used: &[[u8; 2]]) -> (r: [u8; 2])
    requires
        map_size >= 3,
    ensures
        (exists|t: int|
            0 <= t < 81 && local_free(home@, map_size as int, used@, t) && r@ == seq![
                local_candidate(home@, map_size as int, t).0 as u8,
                local_candidate(home@, map_size as int, t).1 as u8,
            ] && forall|u: int| 0 <= u < t ==> !local_free(home@, map_size as int, used@, u))
            || ((forall|u: int| 0 <= u < 81 ==> !local_free(home@, map_size as int, used@, u))
            && r@ == seq![1u8, 1u8]),
{
    let hi: i16 = map_size as i16 - 2;
    let mut dx: i16 = -4;
    while dx <= 4
        invariant
            -4 <= dx <= 5,
            hi == map_size - 2,
            map_size >= 3,
            forall|u: int| 0 <= u < (dx + 4) * 9 ==> !local_free(home@, map_size as int, used@, u),
        decreases 5 - dx,
    {
        let mut dy: i16 = -4;
        while dy <= 4
            invariant
                -4 <= dx <= 4,
                -4 <= dy <= 5,
                hi == map_size - 2,
                map_size >= 3,
                forall|u: int| 0 <= u < (dx + 4) * 9 + (dy + 4) ==> !local_free(home@, map_size as int, used@, u),
            decreases 5 - dy,
        {
            let t: Ghost<int> = Ghost((dx + 4) * 9 + (dy + 4));
            assert(t@ / 9 - 4 == dx && t@ % 9 - 4 == dy);
            let vx = home[0] as i16 + dx;
            let x: u8 = (if vx < 1 {
                1
            } else if vx > hi {
                hi
            } else {
                vx
            }) as u8;
            let vy = home[1] as i16 + dy;
            let y: u8 = (if vy < 1 {
                1
            } else if vy > hi {
                hi
            } else {
                vy
            }) as u8;
            if !is_used(used, x, y) && !(x == home[0] && y == home[1]) {
                let r = [x, y];
                assert(local_free(home@, map_size as int, used@, t@));
                assert(r@ =~= seq![
                    local_candidate(home@, map_size as int, t@).0 as u8,
                    local_candidate(home@, map_size as int, t@).1 as u8,
                ]);
                return r;
            }
            dy = dy + 1;
        }
        dx = dx + 1;
    }
    let r = [1u8, 1u8];
    assert(r@ =~= seq![1u8, 1u8]);
    r
}

/// Candidate at offsets (dx, dy) from the map's center, kept inside its border.
pub open spec fn frontier_candidate(size: int, dx: int, dy: int) -> (int, int) {
    (clamp_int(size / 2 + dx, 1, size - 2), clamp_int(size / 2 + dy, 1, size - 2))
}

/// Candidate (dx, dy) is free.
pub open spec fn frontier_free(size: int, used: Seq<[u8; 2]>, dx: int, dy: int) -> bool {
    let c = frontier_candidate(size, dx, dy);
    !sector_used(used, c.0, c.1)
}

/// Offsets (dx, dy) of ring `ring`, in search order: dx from -ring to
/// ring, and for each dy from -ring to ring.
pub open spec fn in_ring(ring: int, dx: int, dy: int) -> bool {
    -ring <= dx <= ring && -ring <= dy <= ring
}

/// Offsets (dx2, dy2) are searched before offsets (dx, dy) of ring `ring`:
/// they lie in an inner ring, or earlier in this one.
pub open spec fn searched_before(dx2: int, dy2: int, ring: int, dx: int, dy: int) -> bool {
    (ring > 0 && in_ring(ring - 1, dx2, dy2)) || (in_ring(ring, dx2, dy2) && (dx2 < dx || (dx2
        == dx && dy2 < dy)))
}

/// The first free sector in rings around the map's center (rings 0 up to
/// the map size, each scanned by x offset then y offset), or the center
/// when every sector is taken.
pub fn fallback_frontier_world(map_size: u8, used: &[[u8; 2]]) -> (r: [u8; 2])
    requires
        map_size >= 3,
    ensures
        (exists|ring: int, dx: int, dy: int|
            0 <= ring < map_size && in_ring(ring, dx, dy) && frontier_free(
                map_size as int,
                used@,
                dx,
                dy,
            ) && r@ == seq![
                frontier_candidate(map_size as int, dx, dy).0 as u8,
                frontier_candidate(map_size as int, dx, dy).1 as u8,
            ] && forall|dx2: int, dy2: int|
                searched_before(dx2, dy2, ring, dx, dy) ==> !#[trigger] frontier_free(
                    map_size as int,
                    used@,
                    dx2,
                    dy2,
                )) || ((forall|dx2: int, dy2: int|
            in_ring(map_size - 1, dx2, dy2) ==> !#[trigger] frontier_free(
                map_size as int,
                used@,
                dx2,
                dy2,
            )) && r@ == seq![map_size / 2, map_size / 2]),
{
    let center = map_size / 2;
    let hi: i16 = map_size as i16 - 2;
    let mut ring: u8 = 0;
    while ring < map_size
        invariant
            ring <= map_size,
            map_size >= 3,
            center == map_size / 2,
            hi == map_size - 2,
            forall|dx2: int, dy2: int|
                ring > 0 && in_ring(ring - 1, dx2, dy2) ==> !#[trigger] frontier_free(
                    map_size as int,
                    used@,
                    dx2,
                    dy2,
                ),
        decreases map_size - ring,
    {
        let r16 = ring as i16;
        let mut dx: i16 = -r16;
        while dx <= r16
            invariant
                ring < map_size,
                r16 == ring,
                -r16 <= dx <= r16 + 1,
                map_size >= 3,
                center == map_size / 2,
                hi == map_size - 2,
                forall|dx2: int, dy2: int|
                    searched_before(dx2, dy2, ring as int, dx as int, -r16 as int)
                        ==> !#[trigger] frontier_free(map_size as int, used@, dx2, dy2),
            decreases r16 + 1 - dx,
        {
            let mut dy: i16 = -r16;
            while dy <= r16
                invariant
                    ring < map_size,
                    r16 == ring,
                    -r16 <= dx <= r16,
                    -r16 <= dy <= r16 + 1,
                    map_size >= 3,
                    center == map_size / 2,
                    hi == map_size - 2,
                    forall|dx2: int, dy2: int|
                        searched_before(dx2, dy2, ring as int, dx as int, dy as int)
                            ==> !#[trigger] frontier_free(map_size as int, used@, dx2, dy2),
                decreases r16 + 1 - dy,
            {
                let vx = center as i16 + dx;
                let x: u8 = (if vx < 1 {
                    1
                } else if vx > hi {
                    hi
                } else {
                    vx
                }) as u8;
                let vy = center as i16 + dy;
                let y: u8 = (if vy < 1 {
                    1
                } else if vy > hi {
                    hi
                } else {
                    vy
                }) as u8;
                if !is_used(used, x, y) {
                    let r = [x, y];
                    assert(frontier_free(map_size as int, used@, dx as int, dy as int));
                    assert(r@ =~= seq![
                        frontier_candidate(map_size as int, dx as int, dy as int).0 as u8,
                        frontier_candidate(map_size as int, dx as int, dy as int).1 as u8,
                    ]);
                    assert(in_ring(ring as int, dx as int, dy as int));
                    return r;
                }
                assert(!frontier_free(map_size as int, used@, dx as int, dy as int));
                dy = dy + 1;
            }
            assert forall|dx2: int, dy2: int|
                searched_before(dx2, dy2, ring as int, dx + 1, -r16 as int) implies !#[trigger] frontier_free(
                    map_size as int,
                    used@,
                    dx2,
                    dy2,
                ) by {
                if !searched_before(dx2, dy2, ring as int, dx as int, dy as int) {
                    assert(dx2 == dx);
                }
            }
            dx = dx + 1;
        }
        assert forall|dx2: int, dy2: int| in_ring(ring as int, dx2, dy2) implies !#[trigger] frontier_free(
            map_size as int,
            used@,
            dx2,
            dy2,
        ) by {
            assert(searched_before(dx2, dy2, ring as int, dx as int, -r16 as int));
        }
        ring = ring + 1;
    }
    let r = [center, center];
    assert(r@ =~= seq![map_size / 2, map_size / 2]);
    r
}

} // verus!
