//! Yearly upkeep of the campaign header (`CONQUEST.DAT`) and of the
//! players' starbase flags.
use crate::game::CoreGameData;
use crate::records::bytes::{le16, put16, read_u16, write_u16};
use crate::records::player::PlayerRecord;
use crate::CONQUEST_DAT_SIZE;
use vstd::prelude::*;

verus! {

/// `v` capped at `cap`.
pub open spec fn capped_at(v: int, cap: int) -> int {
    if v > cap {
        cap
    } else {
        v
    }
}

/// When fleets were moving: the production total (word at 0x0C) up by 100
/// and the turn counter (0x3D) up by one, both saturating.
pub open spec fn header_accumulated(raw: Seq<u8>, accumulate: bool) -> Seq<u8> {
    if accumulate {
        put16(raw, 0x0c, capped_at(le16(raw, 0x0c) + 100, 65535) as u16).update(
            0x3d,
            capped_at(raw[0x3d] + 1, 255) as u8,
        )
    } else {
        raw
    }
}

/// Header bytes reset from 100 to 0.
pub open spec fn hundred_cleared_offset(i: int) -> bool {
    i == 0x14 || i == 0x16 || i == 0x18 || i == 0x1c || i == 0x1e || i == 0x24 || i == 0x2a || i
        == 0x2c || i == 0x2e || i == 0x30 || i == 0x32 || i == 0x34
}

/// Those of the listed bytes that hold 100 become 0.
pub open spec fn header_hundreds_cleared(raw: Seq<u8>) -> Seq<u8> {
    Seq::new(
        raw.len(),
        |i: int|
            if hundred_cleared_offset(i) && raw[i] == 0x64 {
                0u8
            } else {
                raw[i]
            },
    )
}

/// Production (byte 0x52) of each player not actively playing, in order.
pub open spec fn non_active_prods(players: Seq<PlayerRecord>) -> Seq<u8>
    decreases players.len(),
{
    if players.len() == 0 {
        Seq::empty()
    } else {
        let rest = non_active_prods(players.drop_last());
        if players.last().raw@[0x00] != 0x01 {
            rest.push(players.last().raw@[0x52])
        } else {
            rest
        }
    }
}

/// When the word at 0x0E is unset: the productions of up to three inactive
/// players written as words from 0x0C on.
pub open spec fn header_prods_written(raw: Seq<u8>, prods: Seq<u8>) -> Seq<u8> {
    let n = capped_at(prods.len() as int, 3);
    if raw[0x0e] == 0 {
        Seq::new(
            raw.len(),
            |i: int|
                if 0x0c <= i < 0x0c + 2 * n {
                    if (i - 0x0c) % 2 == 0 {
                        prods[(i - 0x0c) / 2]
                    } else {
                        0u8
                    }
                } else {
                    raw[i]
                },
        )
    } else {
        raw
    }
}

/// `raw` with bytes `off` and `off + 1` set to `a` and `b` when `cond`.
pub open spec fn pair_set_if(raw: Seq<u8>, off: int, cond: bool, a: u8, b: u8) -> Seq<u8> {
    if cond {
        raw.update(off, a).update(off + 1, b)
    } else {
        raw
    }
}

/// The sentinel words at 0x12 and 0x1A, and the resource words that still
/// hold their initial 100.
pub open spec fn header_marks(raw: Seq<u8>) -> Seq<u8> {
    let r = raw.update(0x12, 0xff).update(0x13, 0xff).update(0x1a, 0x74).update(0x1b, 0x33);
    let r = pair_set_if(r, 0x20, raw[0x20] == 0x64, 0x75, 0x03);
    let r = pair_set_if(r, 0x22, raw[0x22] == 0x64 && raw[0x23] == 0x00, 0x65, 0x20);
    let r = pair_set_if(r, 0x26, raw[0x26] == 0x64, 0x7e, 0x04);
    let r = pair_set_if(r, 0x28, raw[0x28] == 0x64 && raw[0x29] == 0x00, 0x20, 0x74);
    let r = pair_set_if(r, 0x36, raw[0x36] == 0x64, 0x3b, 0x86);
    let r = pair_set_if(r, 0x38, raw[0x38] == 0x64 && raw[0x39] == 0x00, 0xfe, 0xfc);
    pair_set_if(r, 0x3a, raw[0x3a] == 0x64 && raw[0x3b] == 0x00, 0x28, 0x8b)
}

/// Bytes 0x42..=0x54 that hold 1 become 0.
pub open spec fn header_ones_cleared(raw: Seq<u8>) -> Seq<u8> {
    Seq::new(
        raw.len(),
        |i: int|
            if 0x42 <= i <= 0x54 && raw[i] == 0x01 {
                0u8
            } else {
                raw[i]
            },
    )
}

/// `raw` with byte `off` set to `a` when `cond`.
pub open spec fn byte_set_if(raw: Seq<u8>, off: int, cond: bool, a: u8) -> Seq<u8> {
    if cond {
        raw.update(off, a)
    } else {
        raw
    }
}

/// The fleet and counter markers, each written only where still unset.
pub open spec fn header_counters(raw: Seq<u8>) -> Seq<u8> {
    let r = pair_set_if(raw, 0x40, raw[0x40] == 0x01 && raw[0x41] == 0x01, 0xff, 0x00);
    let r = byte_set_if(r, 0x44, raw[0x44] == 0x00, 0xc2);
    let r = pair_set_if(r, 0x47, raw[0x47] == 0x00 && raw[0x48] == 0x00, 0x08, 0x6f);
    let r = byte_set_if(r, 0x4a, raw[0x4a] == 0x00, 0x01);
    let r = byte_set_if(r, 0x4b, raw[0x4b] == 0x00, 0x6f);
    let r = pair_set_if(r, 0x52, raw[0x52] == 0x00 && raw[0x53] == 0x00, 0x6a, 0x8d);
    byte_set_if(r, 0x54, raw[0x54] == 0x00, 0x35)
}

/// The campaign header after a year's upkeep.
pub open spec fn conquest_header_after(
    raw: Seq<u8>,
    players: Seq<PlayerRecord>,
    accumulate: bool,
) -> Seq<u8> {
    header_counters(
        header_ones_cleared(
            header_marks(
                header_prods_written(
                    header_hundreds_cleared(header_accumulated(raw, accumulate)),
                    non_active_prods(players),
                ),
            ),
        ),
    )
}

fn accumulate_header(raw: &mut [u8; CONQUEST_DAT_SIZE], accumulate: bool)
    ensures
        final(raw)@ == header_accumulated(old(raw)@, accumulate),
{
    if accumulate {
        let total = read_u16(raw, 0x0c);
        let new_total: u16 = if total > 65535 - 100 {
            65535
        } else {
            total + 100
        };
        write_u16(raw, 0x0c, new_total);
        raw[0x3d] = if raw[0x3d] == 255 {
            255
        } else {
            raw[0x3d] + 1
        };
    }
}

fn clear_hundreds(raw: &mut [u8; CONQUEST_DAT_SIZE])
    ensures
        final(raw)@ == header_hundreds_cleared(old(raw)@),
{
    let offsets: [usize; 12] = [0x14, 0x16, 0x18, 0x1c, 0x1e, 0x24, 0x2a, 0x2c, 0x2e, 0x30, 0x32, 0x34];
    let ghost start = raw@;
    let mut k: usize = 0;
    while k < 12
        invariant
            k <= 12,
            raw@.len() == start.len(),
            offsets@ == seq![0x14usize, 0x16, 0x18, 0x1c, 0x1e, 0x24, 0x2a, 0x2c, 0x2e, 0x30, 0x32, 0x34],
            forall|i: int|
                0 <= i < raw@.len() ==> #[trigger] raw@[i] == if (exists|j: int| 0 <= j < k && offsets@[j] == i) && start[i] == 0x64 {
                    0u8
                } else {
                    start[i]
                },
        decreases 12 - k,
    {
        let o = offsets[k];
        if raw[o] == 0x64 {
            raw[o] = 0;
        }
        proof {
            assert forall|i: int| 0 <= i < raw@.len() implies #[trigger] raw@[i] == if (exists|j: int| 0 <= j < k + 1 && offsets@[j] == i) && start[i] == 0x64 {
                0u8
            } else {
                start[i]
            } by {
                if i == o {
                    assert(offsets@[k as int] == i);
                }
                if (exists|j: int| 0 <= j < k + 1 && offsets@[j] == i) && i != o {
                    let j = choose|j: int| 0 <= j < k + 1 && offsets@[j] == i;
                    assert(j < k);
                }
            }
        }
        k = k + 1;
    }
    proof {
        assert forall|i: int| 0 <= i < raw@.len() implies #[trigger] raw@[i] == header_hundreds_cleared(start)[i] by {
            if hundred_cleared_offset(i) {
                if i == 0x14 { assert(offsets@[0] == i); }
                if i == 0x16 { assert(offsets@[1] == i); }
                if i == 0x18 { assert(offsets@[2] == i); }
                if i == 0x1c { assert(offsets@[3] == i); }
                if i == 0x1e { assert(offsets@[4] == i); }
                if i == 0x24 { assert(offsets@[5] == i); }
                if i == 0x2a { assert(offsets@[6] == i); }
                if i == 0x2c { assert(offsets@[7] == i); }
                if i == 0x2e { assert(offsets@[8] == i); }
                if i == 0x30 { assert(offsets@[9] == i); }
                if i == 0x32 { assert(offsets@[10] == i); }
                if i == 0x34 { assert(offsets@[11] == i); }
            }
        }
        assert(raw@ =~= header_hundreds_cleared(start));
    }
}

/// Production bytes of the inactive players, in order.
fn inactive_productions(players: &Vec<PlayerRecord>) -> (r: Vec<u8>)
    ensures
        r@ == non_active_prods(players@),
{
    let mut r: Vec<u8> = Vec::new();
    let mut i: usize = 0;
    while i < players.len()
        invariant
            i <= players@.len(),
            r@ == non_active_prods(players@.take(i as int)),
        decreases players@.len() - i,
    {
        assert(players@.take(i + 1).drop_last() =~= players@.take(i as int));
        if players[i].raw[0x00] != 0x01 {
            r.push(players[i].raw[0x52]);
        }
        i = i + 1;
    }
    assert(players@.take(i as int) =~= players@);
    r
}

fn write_prods(raw: &mut [u8; CONQUEST_DAT_SIZE], prods: &Vec<u8>)
    ensures
        final(raw)@ == header_prods_written(old(raw)@, prods@),
{
    if raw[0x0e] == 0x00 {
        let ghost start = raw@;
        let n: usize = if prods.len() < 3 {
            prods.len()
        } else {
            3
        };
        let mut k: usize = 0;
        while k < n
            invariant
                k <= n <= 3,
                n == capped_at(prods@.len() as int, 3),
                start[0x0e] == 0,
                raw@.len() == start.len(),
                forall|i: int|
                    0 <= i < raw@.len() ==> #[trigger] raw@[i] == if 0x0c <= i < 0x0c + 2 * k {
                        if (i - 0x0c) % 2 == 0 {
                            prods@[(i - 0x0c) / 2]
                        } else {
                            0u8
                        }
                    } else {
                        start[i]
                    },
            decreases n - k,
        {
            let o = 0x0c + 2 * k;
            raw[o] = prods[k];
            raw[o + 1] = 0;
            k = k + 1;
        }
        assert(raw@ =~= header_prods_written(start, prods@));
    }
}

fn set_pair_if(raw: &mut [u8; CONQUEST_DAT_SIZE], off: usize, cond: bool, a: u8, b: u8)
    requires
        off + 1 < CONQUEST_DAT_SIZE,
    ensures
        final(raw)@ == pair_set_if(old(raw)@, off as int, cond, a, b),
{
    if cond {
        raw[off] = a;
        raw[off + 1] = b;
    }
}

fn set_byte_if(raw: &mut [u8; CONQUEST_DAT_SIZE], off: usize, cond: bool, a: u8)
    requires
        off < CONQUEST_DAT_SIZE,
    ensures
        final(raw)@ == byte_set_if(old(raw)@, off as int, cond, a),
{
    if cond {
        raw[off] = a;
    }
}

fn write_marks(raw: &mut [u8; CONQUEST_DAT_SIZE])
    ensures
        final(raw)@ == header_marks(old(raw)@),
{
    let c20 = raw[0x20] == 0x64;
    let c22 = raw[0x22] == 0x64 && raw[0x23] == 0x00;
    let c26 = raw[0x26] == 0x64;
    let c28 = raw[0x28] == 0x64 && raw[0x29] == 0x00;
    let c36 = raw[0x36] == 0x64;
    let c38 = raw[0x38] == 0x64 && raw[0x39] == 0x00;
    let c3a = raw[0x3a] == 0x64 && raw[0x3b] == 0x00;
    raw[0x12] = 0xff;
    raw[0x13] = 0xff;
    raw[0x1a] = 0x74;
    raw[0x1b] = 0x33;
    set_pair_if(raw, 0x20, c20, 0x75, 0x03);
    set_pair_if(raw, 0x22, c22, 0x65, 0x20);
    set_pair_if(raw, 0x26, c26, 0x7e, 0x04);
    set_pair_if(raw, 0x28, c28, 0x20, 0x74);
    set_pair_if(raw, 0x36, c36, 0x3b, 0x86);
    set_pair_if(raw, 0x38, c38, 0xfe, 0xfc);
    set_pair_if(raw, 0x3a, c3a, 0x28, 0x8b);
}

fn clear_ones(raw: &mut [u8; CONQUEST_DAT_SIZE])
    ensures
        final(raw)@ == header_ones_cleared(old(raw)@),
{
    let ghost start = raw@;
    let mut o: usize = 0x42;
    while o <= 0x54
        invariant
            0x42 <= o <= 0x55,
            raw@.len() == start.len(),
            forall|i: int|
                0 <= i < raw@.len() ==> #[trigger] raw@[i] == if 0x42 <= i < o && start[i] == 0x01 {
                    0u8
                } else {
                    start[i]
                },
        decreases 0x55 - o,
    {
        if raw[o] == 0x01 {
            raw[o] = 0;
        }
        o = o + 1;
    }
    assert(raw@ =~= header_ones_cleared(start));
}

fn write_counters(raw: &mut [u8; CONQUEST_DAT_SIZE])
    ensures
        final(raw)@ == header_counters(old(raw)@),
{
    let c40 = raw[0x40] == 0x01 && raw[0x41] == 0x01;
    let c44 = raw[0x44] == 0x00;
    let c47 = raw[0x47] == 0x00 && raw[0x48] == 0x00;
    let c4a = raw[0x4a] == 0x00;
    let c4b = raw[0x4b] == 0x00;
    let c52 = raw[0x52] == 0x00 && raw[0x53] == 0x00;
    let c54 = raw[0x54] == 0x00;
    set_pair_if(raw, 0x40, c40, 0xff, 0x00);
    set_byte_if(raw, 0x44, c44, 0xc2);
    set_pair_if(raw, 0x47, c47, 0x08, 0x6f);
    set_byte_if(raw, 0x4a, c4a, 0x01);
    set_byte_if(raw, 0x4b, c4b, 0x6f);
    set_pair_if(raw, 0x52, c52, 0x6a, 0x8d);
    set_byte_if(raw, 0x54, c54, 0x35);
}

/// Yearly upkeep of the campaign header: when `should_accumulate`, the
/// production total grows by 100 and the turn counter by one; initial
/// values of 100 are cleared; when unset, the inactive players' productions
/// are written; the sentinel and resource words are written; bytes of 1 in
/// 0x42..=0x54 are cleared; and the unset counters get their markers.
pub fn process_conquest_header(game_data: &mut CoreGameData, should_accumulate: bool)
    ensures
        final(game_data).conquest.raw@ == conquest_header_after(
            old(game_data).conquest.raw@,
            old(game_data).player.records@,
            should_accumulate,
        ),
        final(game_data).player == old(game_data).player,
        final(game_data).planets == old(game_data).planets,
        final(game_data).fleets == old(game_data).fleets,
        final(game_data).bases == old(game_data).bases,
        final(game_data).ipbm == old(game_data).ipbm,
        final(game_data).setup == old(game_data).setup,
{
    let prods = inactive_productions(&game_data.player.records);
    accumulate_header(&mut game_data.conquest.raw, should_accumulate);
    clear_hundreds(&mut game_data.conquest.raw);
    write_prods(&mut game_data.conquest.raw, &prods);
    write_marks(&mut game_data.conquest.raw);
    clear_ones(&mut game_data.conquest.raw);
    write_counters(&mut game_data.conquest.raw);
}

/// `raw` with its starbase flag (0x46) set to 1 when the starbase count
/// (word at 0x44) is not zero, else 0.
pub open spec fn with_starbase_flag(raw: Seq<u8>) -> Seq<u8> {
    raw.update(0x46, if le16(raw, 0x44) > 0 { 0x01u8 } else { 0x00u8 })
}

/// Sets each player's starbase flag from its starbase count.
pub fn update_player_starbase_flag(game_data: &mut CoreGameData)
    ensures
        final(game_data).player.records@.len() == old(game_data).player.records@.len(),
        forall|i: int|
            0 <= i < old(game_data).player.records@.len() ==> #[trigger] final(game_data).player.records@[i].raw@
                == with_starbase_flag(old(game_data).player.records@[i].raw@),
        final(game_data).conquest == old(game_data).conquest,
        final(game_data).planets == old(game_data).planets,
        final(game_data).fleets == old(game_data).fleets,
        final(game_data).bases == old(game_data).bases,
        final(game_data).ipbm == old(game_data).ipbm,
        final(game_data).setup == old(game_data).setup,
{
    let ghost start = game_data.player.records@;
    let n = game_data.player.records.len();
    let mut i: usize = 0;
    while i < n
        invariant
            i <= n == start.len(),
            game_data.player.records@.len() == n,
            forall|j: int|
                0 <= j < n ==> #[trigger] game_data.player.records@[j].raw@ == if j < i {
                    with_starbase_flag(start[j].raw@)
                } else {
                    start[j].raw@
                },
            game_data.conquest == old(game_data).conquest,
            game_data.planets == old(game_data).planets,
            game_data.fleets == old(game_data).fleets,
            game_data.bases == old(game_data).bases,
            game_data.ipbm == old(game_data).ipbm,
            game_data.setup == old(game_data).setup,
            start == old(game_data).player.records@,
        decreases n - i,
    {
        let count = read_u16(&game_data.player.records[i].raw, 0x44);
        game_data.player.records[i].raw[0x46] = if count > 0 {
            0x01
        } else {
            0x00
        };
        i = i + 1;
    }
}

proof fn lemma_counters_settled(s4: Seq<u8>)
    requires
        s4.len() > 0x55,
        forall|i: int| 0x42 <= i <= 0x54 ==> s4[i] != 1,
    ensures
        header_ones_cleared(header_counters(s4)) == header_counters(s4).update(0x4a, s4[0x4a]),
        header_counters(header_counters(s4).update(0x4a, s4[0x4a])) == header_counters(s4),
{
    let a = header_counters(s4);
    assert(header_ones_cleared(a) =~= a.update(0x4a, s4[0x4a]));
    assert(header_counters(a.update(0x4a, s4[0x4a])) =~= a);
}

proof fn lemma_marks_settled(s2: Seq<u8>, a: Seq<u8>)
    requires
        s2.len() > 0x3c,
        a.len() == s2.len(),
        forall|i: int| 0x12 <= i < 0x3c ==> a[i] == header_marks(s2)[i],
        forall|i: int| 0 <= i < a.len() && !(0x12 <= i < 0x3c) ==> a[i] == s2[i] || i >= 0x3c,
    ensures
        header_marks(a) == a,
{
    assert(header_marks(a) =~= a);
}

/// A header after a year's upkeep (without accumulation) is left as it is
/// by a second upkeep: every rewrite is guarded by the state it leaves.
#[verifier::rlimit(100)]
#[verifier::spinoff_prover]
pub proof fn lemma_header_upkeep_idempotent(raw: Seq<u8>, players: Seq<PlayerRecord>)
    requires
        raw.len() == CONQUEST_DAT_SIZE,
    ensures
        conquest_header_after(conquest_header_after(raw, players, false), players, false)
            == conquest_header_after(raw, players, false),
{
    let prods = non_active_prods(players);
    let s1 = header_hundreds_cleared(header_accumulated(raw, false));
    let s2 = header_prods_written(s1, prods);
    let s3 = header_marks(s2);
    let s4 = header_ones_cleared(s3);
    let a = header_counters(s4);
    assert(header_accumulated(raw, false) == raw);
    assert(header_accumulated(a, false) == a);
    assert forall|i: int| 0 <= i < a.len() && hundred_cleared_offset(i) implies a[i] != 0x64 by {
        assert(a[i] == s4[i]);
        assert(s4[i] == s3[i]);
        assert(s3[i] == s2[i]);
        assert(s2[i] == s1[i]);
    }
    let t1 = header_hundreds_cleared(a);
    assert(t1 =~= a);
    assert forall|i: int| 0x0c <= i < 0x12 implies a[i] == s2[i] by {
        assert(a[i] == s4[i]);
        assert(s4[i] == s3[i]);
    }
    assert(s1[0x0e] != 0 ==> s2 == s1);
    let t2 = header_prods_written(t1, prods);
    assert(t2 =~= a);
    assert forall|i: int| 0x12 <= i < 0x3c implies a[i] == s3[i] by {
        assert(a[i] == s4[i]);
    }
    assert forall|i: int| 0 <= i < a.len() && !(0x12 <= i < 0x3c) implies a[i] == s2[i] || i >= 0x3c by {
        if i < 0x12 {
            assert(a[i] == s4[i]);
            assert(s4[i] == s3[i]);
        }
    }
    lemma_marks_settled(s2, a);
    let t3 = header_marks(t2);
    assert(t3 == a);
    lemma_counters_settled(s4);
    let t4 = header_ones_cleared(t3);
    let t5 = header_counters(t4);
    assert(t5 == a);
}

/// A year's upkeep with accumulation raises the turn counter (0x3D) by one
/// and, once the production words are set (0x0E not 0), the production
/// total (word at 0x0C) by 100, both saturating; without accumulation
/// neither moves. The sentinel words at 0x12 and 0x1A always read 0xFFFF
/// and 0x3374 afterwards.
#[verifier::rlimit(60)]
#[verifier::spinoff_prover]
pub proof fn lemma_header_accumulation(raw: Seq<u8>, players: Seq<PlayerRecord>, accumulate: bool)
    requires
        raw.len() == CONQUEST_DAT_SIZE,
    ensures
        ({
            let h = conquest_header_after(raw, players, accumulate);
            &&& h[0x3d] == (if accumulate { if raw[0x3d] == 255 { 255 } else { raw[0x3d] + 1 } } else { raw[0x3d] as int })
            &&& raw[0x0e] != 0 ==> le16(h, 0x0c) == (if accumulate {
                if le16(raw, 0x0c) + 100 > 65535 { 65535 } else { le16(raw, 0x0c) + 100 }
            } else {
                le16(raw, 0x0c) as int
            })
            &&& le16(h, 0x12) == 0xffff
            &&& le16(h, 0x1a) == 0x3374
        }),
{
    let a = header_accumulated(raw, accumulate);
    if accumulate {
        crate::records::bytes::lemma_put16_get16(raw, 0x0c, capped_at(le16(raw, 0x0c) + 100, 65535) as u16);
    }
    let b = header_hundreds_cleared(a);
    let c = header_prods_written(b, non_active_prods(players));
    let d = header_marks(c);
    let e = header_ones_cleared(d);
    let h = header_counters(e);
    assert(a.len() == raw.len());
    assert(b[0x0e] == a[0x0e] && b[0x0c] == a[0x0c] && b[0x0d] == a[0x0d] && b[0x3d] == a[0x3d]);
    assert(a[0x0e] == raw[0x0e]);
    assert(c[0x3d] == b[0x3d]);
    assert(raw[0x0e] != 0 ==> c[0x0c] == b[0x0c] && c[0x0d] == b[0x0d]);
    assert(d[0x0c] == c[0x0c] && d[0x0d] == c[0x0d] && d[0x3d] == c[0x3d]);
    assert(d[0x12] == 0xff && d[0x13] == 0xff && d[0x1a] == 0x74 && d[0x1b] == 0x33);
    assert(e[0x0c] == d[0x0c] && e[0x0d] == d[0x0d] && e[0x3d] == d[0x3d]);
    assert(e[0x12] == d[0x12] && e[0x13] == d[0x13] && e[0x1a] == d[0x1a] && e[0x1b] == d[0x1b]);
    assert(h[0x0c] == e[0x0c] && h[0x0d] == e[0x0d] && h[0x3d] == e[0x3d]);
    assert(h[0x12] == e[0x12] && h[0x13] == e[0x13] && h[0x1a] == e[0x1a] && h[0x1b] == e[0x1b]);
}

} // verus!
