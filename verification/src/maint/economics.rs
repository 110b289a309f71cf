//! Planet economics run by the computer for rogue and autopilot empires.
use crate::game::CoreGameData;
use crate::records::base::BaseRecord;
use crate::records::player::PlayerRecord;
use vstd::prelude::*;

verus! {

/// The computer runs this empire: a rogue slot, or an active player with
/// autopilot on.
pub open spec fn ai_controlled(p: PlayerRecord) -> bool {
    p.raw@[0x00] == 0xff || (p.raw@[0x00] == 0x01 && p.raw@[0x6D] == 0x01)
}

/// Number of computer-run slots among the first `n` players whose 1-based
/// slot number (as a byte) is `owner`.
pub open spec fn ai_turns(players: Seq<PlayerRecord>, n: int, owner: u8) -> nat
    decreases n,
{
    if n <= 0 {
        0
    } else {
        ai_turns(players, n - 1, owner) + if ai_controlled(players[n - 1]) && ((n % 256) as u8) == owner {
            1nat
        } else {
            0nat
        }
    }
}

/// One yearly computer turn on a homeworld-type world: the factories
/// exponent 0x86 raised to 0x87, `(potential + 3) / 6` more armies (at most
/// 255), and the production accumulator set to 4.
pub open spec fn autopilot_step(raw: Seq<u8>) -> Seq<u8> {
    let armies = raw[0x58] + (raw[0x02] + 3) / 6;
    raw.update(0x09, if raw[0x09] == 0x86 { 0x87u8 } else { raw[0x09] }).update(
        0x58,
        if armies > 255 { 255u8 } else { armies as u8 },
    ).update(0x0E, 4)
}

/// A world after `k` yearly computer turns.
pub open spec fn autopilot_world(raw: Seq<u8>, k: nat) -> Seq<u8>
    decreases k,
{
    if k == 0 {
        raw
    } else {
        autopilot_step(autopilot_world(raw, (k - 1) as nat))
    }
}

/// A world the computer develops: of homeworld type (0x87 at 0x03).
pub open spec fn ai_world(raw: Seq<u8>) -> bool {
    raw[0x03] == 0x87
}

/// Computer turns leave the record's size, owner, type and potential alone.
proof fn lemma_autopilot_keeps(raw: Seq<u8>, k: nat)
    requires
        raw.len() == 97,
    ensures
        autopilot_world(raw, k).len() == 97,
        autopilot_world(raw, k)[0x02] == raw[0x02],
        autopilot_world(raw, k)[0x03] == raw[0x03],
        autopilot_world(raw, k)[0x5D] == raw[0x5D],
    decreases k,
{
    if k > 0 {
        lemma_autopilot_keeps(raw, (k - 1) as nat);
    }
}

/// An active starbase of empire `owner` stationed at `coords`.
pub open spec fn friendly_starbase(base: BaseRecord, owner: u8, coords: Seq<u8>) -> bool {
    &&& base.raw@[0x22] == owner
    &&& base.raw@.subrange(0x0B, 0x0D) == coords
    &&& base.raw@[0x02] != 0
}

/// Whether empire `owner_empire_raw` has an active starbase at `coords`.
pub fn planet_has_friendly_starbase(
    game_data: &CoreGameData,
    owner_empire_raw: u8,
    coords: [u8; 2],
) -> (r: bool)
    ensures
        r <==> exists|i: int|
            0 <= i < game_data.bases.records@.len() && #[trigger] friendly_starbase(
                game_data.bases.records@[i],
                owner_empire_raw,
                coords@,
            ),
{
    let n = game_data.bases.records.len();
    let mut i: usize = 0;
    while i < n
        invariant
            i <= n,
            n == game_data.bases.records@.len(),
            forall|j: int|
                0 <= j < i ==> !#[trigger] friendly_starbase(
                    game_data.bases.records@[j],
                    owner_empire_raw,
                    coords@,
                ),
        decreases n - i,
    {
        let base = &game_data.bases.records[i];
        let base_coords = base.coords_raw();
        if base.owner_empire_raw() == owner_empire_raw && base_coords[0] == coords[0]
            && base_coords[1] == coords[1] && base.active_flag_raw() != 0 {
            proof {
                assert(base_coords@ =~= coords@);
                assert(friendly_starbase(game_data.bases.records@[i as int], owner_empire_raw, coords@));
            }
            return true;
        }
        proof {
            if base_coords@ =~= coords@ {
                assert(base_coords@[0] == coords@[0]);
            }
        }
        i = i + 1;
    }
    false
}

/// Yearly planet development for every computer-run empire: each of its
/// homeworld-type worlds gets its factories exponent raised from 0x86 to
/// 0x87, `(potential + 3) / 6` more armies (capped at 255), and its
/// production accumulator reset to 4.
pub fn process_autopilot_ai(game_data: &mut CoreGameData)
    ensures
        final(game_data).player == old(game_data).player,
        final(game_data).fleets == old(game_data).fleets,
        final(game_data).bases == old(game_data).bases,
        final(game_data).ipbm == old(game_data).ipbm,
        final(game_data).setup == old(game_data).setup,
        final(game_data).conquest == old(game_data).conquest,
        forall|i: int|
            0 <= i < 20 ==> #[trigger] final(game_data).planets.records@[i].raw@ == {
                let raw = old(game_data).planets.records@[i].raw@;
                if ai_world(raw) {
                    autopilot_world(raw, ai_turns(old(game_data).player.records@, old(game_data).player.records@.len() as int, raw[0x5D]))
                } else {
                    raw
                }
            },
{
    let ghost orig = game_data.planets.records@;
    let ghost players = game_data.player.records@;
    let n_players = game_data.player.records.len();
    let mut player_idx: usize = 0;
    while player_idx < n_players
        invariant
            player_idx <= n_players,
            n_players == players.len(),
            game_data.player.records@ == players,
            game_data.fleets == old(game_data).fleets,
            game_data.bases == old(game_data).bases,
            game_data.ipbm == old(game_data).ipbm,
            game_data.setup == old(game_data).setup,
            game_data.conquest == old(game_data).conquest,
            game_data.player == old(game_data).player,
            orig == old(game_data).planets.records@,
            forall|i: int|
                0 <= i < 20 ==> #[trigger] game_data.planets.records@[i].raw@ == if ai_world(orig[i].raw@) {
                    autopilot_world(orig[i].raw@, ai_turns(players, player_idx as int, orig[i].raw@[0x5D]))
                } else {
                    orig[i].raw@
                },
        decreases n_players - player_idx,
    {
        let mode = game_data.player.records[player_idx].raw[0x00];
        let autopilot = game_data.player.records[player_idx].raw[0x6D];
        let ai_active = mode == 0xff || (mode == 0x01 && autopilot == 0x01);
        let owner_slot = ((player_idx + 1) % 256) as u8;
        let ghost before = game_data.planets.records@;
        if ai_active {
            let mut planet_idx: usize = 0;
            while planet_idx < 20
                invariant
                    planet_idx <= 20,
                    player_idx < n_players,
                    n_players == players.len(),
                    ai_controlled(players[player_idx as int]),
                    owner_slot == ((player_idx + 1) % 256) as u8,
                    game_data.player.records@ == players,
                    game_data.fleets == old(game_data).fleets,
                    game_data.bases == old(game_data).bases,
                    game_data.ipbm == old(game_data).ipbm,
                    game_data.setup == old(game_data).setup,
                    game_data.conquest == old(game_data).conquest,
                    game_data.player == old(game_data).player,
                    forall|i: int|
                        0 <= i < 20 ==> #[trigger] game_data.planets.records@[i].raw@ == if i
                            < planet_idx && ai_world(orig[i].raw@) {
                            autopilot_world(orig[i].raw@, ai_turns(players, player_idx + 1, orig[i].raw@[0x5D]))
                        } else {
                            before[i].raw@
                        },
                    forall|i: int|
                        0 <= i < 20 ==> #[trigger] before[i].raw@ == if ai_world(orig[i].raw@) {
                            autopilot_world(orig[i].raw@, ai_turns(players, player_idx as int, orig[i].raw@[0x5D]))
                        } else {
                            orig[i].raw@
                        },
                decreases 20 - planet_idx,
            {
                let ghost w0 = game_data.planets.records@[planet_idx as int].raw@;
                let ghost o = orig[planet_idx as int].raw@;
                proof {
                    lemma_autopilot_keeps(o, ai_turns(players, player_idx as int, o[0x5D]));
                }
                if game_data.planets.records[planet_idx].raw[0x5D] == owner_slot
                    && game_data.planets.records[planet_idx].raw[0x03] == 0x87 {
                    let pot_prod = game_data.planets.records[planet_idx].raw[0x02];
                    if game_data.planets.records[planet_idx].raw[0x09] == 0x86 {
                        game_data.planets.records[planet_idx].raw[0x09] = 0x87;
                    }
                    let army_delta = (pot_prod as u16 + 3) / 6;
                    let current_armies = game_data.planets.records[planet_idx].raw[0x58] as u16;
                    let total = current_armies + army_delta;
                    game_data.planets.records[planet_idx].raw[0x58] = if total > 255 {
                        255
                    } else {
                        total as u8
                    };
                    game_data.planets.records[planet_idx].raw[0x0E] = 4;
                    proof {
                        assert(game_data.planets.records@[planet_idx as int].raw@ =~= autopilot_world(
                            o,
                            ai_turns(players, player_idx + 1, o[0x5D]),
                        ));
                    }
                } else {
                    proof {
                        if ai_world(o) {
                            assert(ai_turns(players, player_idx + 1, o[0x5D]) == ai_turns(players, player_idx as int, o[0x5D]));
                        }
                    }
                }
                planet_idx = planet_idx + 1;
            }
        } else {
            proof {
                assert forall|i: int| 0 <= i < 20 implies ai_turns(players, player_idx + 1, #[trigger] orig[i].raw@[0x5D])
                    == ai_turns(players, player_idx as int, orig[i].raw@[0x5D]) by {}
            }
        }
        player_idx = player_idx + 1;
    }
}

proof fn lemma_ai_turns_small(players: Seq<PlayerRecord>, n: int, owner: u8)
    requires
        0 <= n <= 255,
    ensures
        ai_turns(players, n, owner) == (if 1 <= owner <= n && ai_controlled(players[owner - 1]) {
            1nat
        } else {
            0nat
        }),
    decreases n,
{
    if n > 0 {
        lemma_ai_turns_small(players, n - 1, owner);
        assert(n % 256 == n);
    }
}

/// With at most 255 players, a homeworld-type world of a computer-run
/// empire gets exactly one yearly computer turn, and every other world none.
pub proof fn lemma_autopilot_one_turn(players: Seq<PlayerRecord>, raw: Seq<u8>)
    requires
        players.len() <= 255,
    ensures
        ai_turns(players, players.len() as int, raw[0x5D]) == (if 1 <= raw[0x5D] <= players.len()
            && ai_controlled(players[raw[0x5D] - 1]) {
            1nat
        } else {
            0nat
        }),
        autopilot_world(raw, 1) == autopilot_step(raw),
        autopilot_world(raw, 0) == raw,
{
    lemma_ai_turns_small(players, players.len() as int, raw[0x5D]);
    assert(autopilot_world(raw, 0) == raw);
}

/// A yearly computer turn: the world gains one army per six points of
/// potential (0x02), rounding from half up (three points), never past 255;
/// a factories exponent of 0x86 becomes 0x87; the production accumulator
/// becomes 4; nothing else changes.
pub proof fn lemma_autopilot_step_effect(raw: Seq<u8>)
    requires
        raw.len() == 97,
    ensures
        ({
            let s = autopilot_step(raw);
            &&& s.len() == 97
            &&& s[0x0E] == 4
            &&& s[0x09] == (if raw[0x09] == 0x86 { 0x87u8 } else { raw[0x09] })
            &&& s[0x58] >= raw[0x58]
            &&& s[0x58] < 255 ==> 6 * (s[0x58] - raw[0x58]) <= raw[0x02] + 3 < 6 * (s[0x58] - raw[0x58]) + 6
            &&& s[0x58] == 255 && raw[0x58] < 255 ==> 6 * (255 - raw[0x58]) <= raw[0x02] + 3
            &&& forall|i: int| 0 <= i < 97 && i != 0x09 && i != 0x58 && i != 0x0E ==> #[trigger] s[i] == raw[i]
        }),
{
    let g = (raw[0x02] + 3) / 6;
    assert(6 * g <= raw[0x02] + 3 < 6 * g + 6);
}

} // verus!
