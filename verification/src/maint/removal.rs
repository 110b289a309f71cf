//! Taking fleets out of `FLEETS.DAT`: the survivors close ranks and every
//! global fleet id that points into the list is renumbered.
use crate::game::CoreGameData;
use crate::maint::movement::{
    lemma_removed_before_bound, lemma_surviving_at, lemma_surviving_len, removed_before, removed_counts, surviving,
};
use crate::records::bytes::{le16, put16};
use crate::records::fleet::FleetRecord;
use vstd::prelude::*;

verus! {

/// What global fleet id `old_id` (1-based, 0 for none) becomes once the
/// marked fleets are gone: 0 for none, for a removed fleet or for one past
/// the list, else the id less the removed fleets before it.
pub open spec fn remapped_fleet_id(to_remove: Seq<bool>, old_id: int) -> int {
    if old_id == 0 || old_id - 1 >= to_remove.len() || to_remove[old_id - 1] {
        0
    } else {
        old_id - removed_before(to_remove, old_id - 1)
    }
}

/// A surviving fleet record with its own id (0x05), its next-fleet link
/// (0x03) and its previous-fleet byte (0x07) renumbered.
pub open spec fn relinked_fleet(raw: Seq<u8>, to_remove: Seq<bool>) -> Seq<u8> {
    put16(
        put16(raw, 0x05, remapped_fleet_id(to_remove, le16(raw, 0x05) as int) as u16),
        0x03,
        remapped_fleet_id(to_remove, le16(raw, 0x03) as int) as u16,
    ).update(0x07, remapped_fleet_id(to_remove, raw[0x07] as int) as u8)
}

/// The highest renumbered id (as a byte) among the surviving fleets of
/// `owner` in the first `n` records, and at least `floor`.
pub open spec fn highest_surviving_id(
    fleets: Seq<FleetRecord>,
    to_remove: Seq<bool>,
    owner: u8,
    n: int,
    floor: u8,
) -> u8
    decreases n,
{
    if n <= 0 {
        floor
    } else {
        let prev = highest_surviving_id(fleets, to_remove, owner, n - 1, floor);
        let raw = fleets[n - 1].raw@;
        let mapped = remapped_fleet_id(to_remove, le16(raw, 0x05) as int) as u8;
        if raw[0x02] == owner && !to_remove[n - 1] && mapped > prev {
            mapped
        } else {
            prev
        }
    }
}

/// Player record `raw` of slot `p` once the marked fleets are gone: its first
/// and last fleet ids renumbered; a last id that vanished while the first
/// survives becomes the highest surviving id of the empire's fleets.
pub open spec fn relinked_player(raw: Seq<u8>, p: int, fleets: Seq<FleetRecord>, to_remove: Seq<bool>) -> Seq<u8> {
    let first = remapped_fleet_id(to_remove, raw[0x40] as int) as u8;
    let last = remapped_fleet_id(to_remove, raw[0x42] as int) as u8;
    raw.update(0x40, first).update(
        0x42,
        if last == 0 && first != 0 {
            highest_surviving_id(fleets, to_remove, (p + 1) as u8, fleets.len() as int, first)
        } else {
            last
        },
    )
}

proof fn lemma_surviving_origin<A>(items: Seq<A>, to_remove: Seq<bool>, n: int)
    requires
        items.len() <= to_remove.len(),
        0 <= n < surviving(items, to_remove).len(),
    ensures
        exists|idx: int|
            0 <= idx < items.len() && !to_remove[idx] && n == idx - removed_before(to_remove, idx)
                && surviving(items, to_remove)[n] == #[trigger] items[idx],
    decreases items.len(),
{
    let m = items.len() - 1;
    let rest = items.drop_last();
    lemma_surviving_len(rest, to_remove);
    if n < surviving(rest, to_remove).len() {
        lemma_surviving_origin(rest, to_remove, n);
        let idx = choose|idx: int|
            0 <= idx < rest.len() && !to_remove[idx] && n == idx - removed_before(to_remove, idx)
                && surviving(rest, to_remove)[n] == #[trigger] rest[idx];
        assert(items[idx] == rest[idx]);
    } else {
        assert(!to_remove[m]);
        assert(items[m] == surviving(items, to_remove)[n]);
    }
}

/// When every fleet's id is its 1-based position, it stays so through a
/// removal: the survivors, one fewer for each removed fleet, carry ids
/// 1, 2, 3, ... in their new order.
pub proof fn lemma_removal_keeps_ids_positional(fleets: Seq<FleetRecord>, to_remove: Seq<bool>)
    requires
        fleets.len() == to_remove.len(),
        forall|i: int| 0 <= i < fleets.len() ==> le16((#[trigger] fleets[i]).raw@, 0x05) == i + 1,
    ensures
        surviving(fleets, to_remove).len() == fleets.len() - removed_before(to_remove, fleets.len() as int),
        forall|n: int|
            0 <= n < surviving(fleets, to_remove).len() ==> le16(
                relinked_fleet(#[trigger] surviving(fleets, to_remove)[n].raw@, to_remove),
                0x05,
            ) == n + 1,
{
    lemma_surviving_len(fleets, to_remove);
    assert forall|n: int| 0 <= n < surviving(fleets, to_remove).len() implies le16(
        relinked_fleet(#[trigger] surviving(fleets, to_remove)[n].raw@, to_remove),
        0x05,
    ) == n + 1 by {
        lemma_surviving_origin(fleets, to_remove, n);
        let idx = choose|idx: int|
            0 <= idx < fleets.len() && !to_remove[idx] && n == idx - removed_before(to_remove, idx)
                && surviving(fleets, to_remove)[n] == #[trigger] fleets[idx];
        let raw = fleets[idx].raw@;
        lemma_removed_before_bound(to_remove, idx);
        assert(remapped_fleet_id(to_remove, le16(raw, 0x05) as int) == n + 1);
        let a = put16(raw, 0x05, (n + 1) as u16);
        let b = put16(a, 0x03, remapped_fleet_id(to_remove, le16(raw, 0x03) as int) as u16);
        let c = b.update(0x07, remapped_fleet_id(to_remove, raw[0x07] as int) as u8);
        assert(c[0x05] == a[0x05] && c[0x06] == a[0x06]);
    }
}

fn remap_fleet_id(to_remove: &[bool], counts: &Vec<usize>, old_id: u16) -> (r: u16)
    requires
        counts@.len() == to_remove@.len(),
        forall|i: int| 0 <= i < counts@.len() ==> #[trigger] counts@[i] == removed_before(to_remove@, i),
    ensures
        r == remapped_fleet_id(to_remove@, old_id as int),
{
    if old_id == 0 {
        return 0;
    }
    let orig = (old_id - 1) as usize;
    if orig >= to_remove.len() || to_remove[orig] {
        0
    } else {
        proof {
            lemma_removed_before_bound(to_remove@, orig as int);
        }
        old_id - counts[orig] as u16
    }
}

fn highest_id_of(fleets: &Vec<FleetRecord>, to_remove: &[bool], counts: &Vec<usize>, owner: u8, floor: u8) -> (r:
    u8)
    requires
        fleets@.len() == to_remove@.len() == counts@.len(),
        forall|i: int| 0 <= i < counts@.len() ==> #[trigger] counts@[i] == removed_before(to_remove@, i),
    ensures
        r == highest_surviving_id(fleets@, to_remove@, owner, fleets@.len() as int, floor),
{
    let mut best = floor;
    let mut i: usize = 0;
    while i < fleets.len()
        invariant
            i <= fleets@.len() == to_remove@.len() == counts@.len(),
            forall|j: int| 0 <= j < counts@.len() ==> #[trigger] counts@[j] == removed_before(to_remove@, j),
            best == highest_surviving_id(fleets@, to_remove@, owner, i as int, floor),
        decreases fleets@.len() - i,
    {
        let mapped = remap_fleet_id(to_remove, counts, fleets[i].fleet_id_word_raw()) as u8;
        if fleets[i].owner_empire_raw() == owner && !to_remove[i] && mapped > best {
            best = mapped;
        }
        i = i + 1;
    }
    best
}

/// `after` is `before` with the fleets marked in `to_remove` taken out and
/// the fleet ids renumbered; nothing changes when the list is empty or the
/// marks do not match it.
pub open spec fn fleets_removed(before: CoreGameData, after: CoreGameData, to_remove: Seq<bool>) -> bool {
    if before.fleets.records@.len() == 0 || to_remove.len() != before.fleets.records@.len() {
        after == before
    } else {
        &&& after.fleets.records@.len() == surviving(before.fleets.records@, to_remove).len()
        &&& forall|n: int|
            0 <= n < after.fleets.records@.len() ==> (#[trigger] after.fleets.records@[n]).raw@ == relinked_fleet(
                surviving(before.fleets.records@, to_remove)[n].raw@,
                to_remove,
            )
        &&& after.player.records@.len() == before.player.records@.len()
        &&& forall|p: int|
            0 <= p < before.player.records@.len() ==> (#[trigger] after.player.records@[p]).raw@ == relinked_player(
                before.player.records@[p].raw@,
                p,
                before.fleets.records@,
                to_remove,
            )
        &&& after.planets == before.planets
        &&& after.bases == before.bases
        &&& after.ipbm == before.ipbm
        &&& after.setup == before.setup
        &&& after.conquest == before.conquest
    }
}

/// Removes the fleets marked in `to_remove` and renumbers what points at
/// fleets: each survivor's own id, next link and previous byte, and each
/// player's first and last fleet ids. Local fleet numbers stay as they are.
/// Nothing changes when the list is empty or the marks do not match it.
pub fn apply_fleet_removal_remap(game_data: &mut CoreGameData, to_remove: &[bool])
    ensures
        fleets_removed(*old(game_data), *final(game_data), to_remove@),
{
    let fleet_count = game_data.fleets.records.len();
    if fleet_count == 0 || to_remove.len() != fleet_count {
        return;
    }
    let counts = removed_counts(to_remove);
    let ghost fleets0 = game_data.fleets.records@;
    let ghost players0 = game_data.player.records@;

    let n_players = game_data.player.records.len();
    let mut p: usize = 0;
    while p < n_players
        invariant
            p <= n_players == players0.len(),
            game_data.player.records@.len() == n_players,
            game_data.fleets.records@ == fleets0,
            fleets0.len() == to_remove@.len() == counts@.len(),
            forall|i: int| 0 <= i < counts@.len() ==> #[trigger] counts@[i] == removed_before(to_remove@, i),
            forall|j: int|
                0 <= j < n_players ==> #[trigger] game_data.player.records@[j].raw@ == if j < p {
                    relinked_player(players0[j].raw@, j, fleets0, to_remove@)
                } else {
                    players0[j].raw@
                },
            game_data.planets == old(game_data).planets,
            game_data.bases == old(game_data).bases,
            game_data.ipbm == old(game_data).ipbm,
            game_data.setup == old(game_data).setup,
            game_data.conquest == old(game_data).conquest,
            players0 == old(game_data).player.records@,
            fleets0 == old(game_data).fleets.records@,
        decreases n_players - p,
    {
        let first_id = game_data.player.records[p].raw[0x40];
        let last_id = game_data.player.records[p].raw[0x42];
        let new_first = remap_fleet_id(to_remove, &counts, first_id as u16) as u8;
        let new_last = remap_fleet_id(to_remove, &counts, last_id as u16) as u8;
        let owner = (p + 1) as u8;
        let last = if new_last == 0 && new_first != 0 {
            highest_id_of(&game_data.fleets.records, to_remove, &counts, owner, new_first)
        } else {
            new_last
        };
        game_data.player.records[p].raw[0x40] = new_first;
        game_data.player.records[p].raw[0x42] = last;
        proof {
            assert(game_data.player.records@[p as int].raw@ =~= relinked_player(
                players0[p as int].raw@,
                p as int,
                fleets0,
                to_remove@,
            ));
        }
        p = p + 1;
    }

    let mut kept: Vec<FleetRecord> = Vec::new();
    let mut i: usize = 0;
    while i < fleet_count
        invariant
            i <= fleet_count == fleets0.len() == to_remove@.len() == counts@.len(),
            game_data.fleets.records@ == fleets0,
            forall|j: int| 0 <= j < counts@.len() ==> #[trigger] counts@[j] == removed_before(to_remove@, j),
            kept@.len() == surviving(fleets0.take(i as int), to_remove@).len(),
            forall|n: int|
                0 <= n < kept@.len() ==> (#[trigger] kept@[n]).raw@ == relinked_fleet(
                    surviving(fleets0.take(i as int), to_remove@)[n].raw@,
                    to_remove@,
                ),
        decreases fleet_count - i,
    {
        let ghost before = surviving(fleets0.take(i as int), to_remove@);
        proof {
            assert(fleets0.take(i + 1).drop_last() =~= fleets0.take(i as int));
        }
        if !to_remove[i] {
            let mut f = FleetRecord { raw: game_data.fleets.records[i].raw };
            let old_id = f.fleet_id_word_raw();
            let old_next = f.next_fleet_link_word_raw();
            let old_prev = f.previous_fleet_id();
            let new_id = remap_fleet_id(to_remove, &counts, old_id);
            let new_next = remap_fleet_id(to_remove, &counts, old_next);
            let new_prev = remap_fleet_id(to_remove, &counts, old_prev as u16) as u8;
            f.set_fleet_id_word_raw(new_id);
            f.set_next_fleet_link_word_raw(new_next);
            f.raw[0x07] = new_prev;
            kept.push(f);
            proof {
                assert(surviving(fleets0.take(i + 1), to_remove@) =~= before.push(fleets0[i as int]));
                assert(kept@.last().raw@ =~= relinked_fleet(fleets0[i as int].raw@, to_remove@));
            }
        } else {
            proof {
                assert(surviving(fleets0.take(i + 1), to_remove@) =~= before);
            }
        }
        i = i + 1;
    }
    proof {
        assert(fleets0.take(fleet_count as int) =~= fleets0);
    }
    game_data.fleets.records = kept;
}

} // verus!
