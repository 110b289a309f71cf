//! Repairing what players left invalid in their empire records before the
//! year is run: tax rates above 100 and stored relation bytes that are not
//! a relation.
use crate::game::CoreGameData;
use vstd::prelude::*;

verus! {

/// Why a stored relation byte was cleared.
#[derive(Debug, Clone, Copy, PartialEq, Eq, Structural)]
pub enum PlayerDiplomacyValidationError {
    /// The empire keeps a relation toward itself.
    SelfTarget { empire_raw: u8 },
    /// The byte toward `target_empire_raw` is neither 0 nor 1.
    InvalidStoredRelationByte { target_empire_raw: u8, raw: u8 },
}

/// An invalid player input that was repaired.
#[derive(Debug, Clone, Copy, PartialEq, Eq, Structural)]
pub enum InvalidPlayerStateEvent {
    /// The tax rate was above 100 and was set to 100.
    PlayerTaxRate { player_idx: usize, owner_empire_raw: u8, tax_rate: u8 },
    /// A stored relation byte was cleared.
    DiplomacyInput { player_idx: usize, owner_empire_raw: u8, reason: PlayerDiplomacyValidationError },
}

/// What is wrong with the relation byte of player record `raw` (slot `p`)
/// toward empire `t` (1-based), if anything.
pub open spec fn relation_problem(raw: Seq<u8>, p: int, t: int) -> Option<PlayerDiplomacyValidationError> {
    let b = raw[0x54 + t - 1];
    if t == ((p + 1) as u8) as int {
        if b != 0 {
            Some(PlayerDiplomacyValidationError::SelfTarget { empire_raw: (p + 1) as u8 })
        } else {
            None
        }
    } else if b != 0 && b != 1 {
        Some(PlayerDiplomacyValidationError::InvalidStoredRelationByte { target_empire_raw: t as u8, raw: b })
    } else {
        None
    }
}

/// Player record `raw` (slot `p`) repaired for `k` empires: the tax rate
/// (0x51) capped at 100, each faulty relation byte toward empires 1 to `k`
/// set to 0.
pub open spec fn sanitized_player(raw: Seq<u8>, p: int, k: int) -> Seq<u8> {
    Seq::new(
        raw.len(),
        |i: int|
            if 0x54 <= i < 0x54 + k && relation_problem(raw, p, i - 0x53) is Some {
                0u8
            } else if i == 0x51 && raw[0x51] > 100 {
                100u8
            } else {
                raw[i]
            },
    )
}

/// The relation repairs of player record `raw` (slot `p`) toward empires 1
/// to `t`, in order.
pub open spec fn relation_events(raw: Seq<u8>, p: int, t: int) -> Seq<InvalidPlayerStateEvent>
    decreases t,
{
    if t <= 0 {
        Seq::empty()
    } else {
        relation_events(raw, p, t - 1) + match relation_problem(raw, p, t) {
            Some(reason) => seq![
                InvalidPlayerStateEvent::DiplomacyInput { player_idx: p as usize, owner_empire_raw: (p + 1) as u8, reason },
            ],
            None => Seq::empty(),
        }
    }
}

/// The repairs of player record `raw` (slot `p`) for `k` empires: the tax
/// rate first, then the relations.
pub open spec fn player_events(raw: Seq<u8>, p: int, k: int) -> Seq<InvalidPlayerStateEvent> {
    (if raw[0x51] > 100 {
        seq![
            InvalidPlayerStateEvent::PlayerTaxRate {
                player_idx: p as usize,
                owner_empire_raw: (p + 1) as u8,
                tax_rate: raw[0x51],
            },
        ]
    } else {
        Seq::empty()
    }) + relation_events(raw, p, k)
}

/// The repairs of the first `n` player records, slot by slot.
pub open spec fn sanitize_events(players: Seq<Seq<u8>>, k: int, n: int) -> Seq<InvalidPlayerStateEvent>
    decreases n,
{
    if n <= 0 {
        Seq::empty()
    } else {
        sanitize_events(players, k, n - 1) + player_events(players[n - 1], n - 1, k)
    }
}

proof fn lemma_no_relation_events(raw: Seq<u8>, p: int, k: int, t: int)
    requires
        raw.len() == 110,
        0 <= t <= k <= 26,
    ensures
        relation_events(sanitized_player(raw, p, k), p, t) == Seq::<InvalidPlayerStateEvent>::empty(),
    decreases t,
{
    if t > 0 {
        lemma_no_relation_events(raw, p, k, t - 1);
        let s = sanitized_player(raw, p, k);
        assert(s[0x54 + t - 1] == 0 || relation_problem(raw, p, t) is None);
        assert(relation_problem(s, p, t) is None);
        assert(relation_events(s, p, t) =~= Seq::<InvalidPlayerStateEvent>::empty());
    }
}

/// A repaired player record is valid: its tax rate is at most 100, a second
/// repair reports nothing and changes nothing.
pub proof fn lemma_sanitized_player_settled(raw: Seq<u8>, p: int, k: int)
    requires
        raw.len() == 110,
        0 <= k <= 26,
    ensures
        sanitized_player(raw, p, k)[0x51] <= 100,
        player_events(sanitized_player(raw, p, k), p, k) == Seq::<InvalidPlayerStateEvent>::empty(),
        sanitized_player(sanitized_player(raw, p, k), p, k) == sanitized_player(raw, p, k),
{
    let s = sanitized_player(raw, p, k);
    lemma_no_relation_events(raw, p, k, k);
    assert(player_events(s, p, k) =~= Seq::<InvalidPlayerStateEvent>::empty());
    assert forall|i: int| 0x54 <= i < 0x54 + k implies (#[trigger] s[i]) == sanitized_player(s, p, k)[i] by {
        assert(s[0x54 + (i - 0x53) - 1] == s[i]);
        assert(relation_problem(s, p, i - 0x53) is None);
    }
    assert(sanitized_player(s, p, k) =~= s);
}

/// What the repair does to one player record (slot `p`, `k` empires,
/// `p + 1` not wrapping): a tax rate of at most 100 stays, a higher one
/// becomes 100 and is reported first with its old value; toward itself the
/// empire keeps no relation (byte 0, reported when it was not); toward
/// another empire a 0 or 1 stays and anything else is cleared and
/// reported; every other byte stays.
pub proof fn lemma_player_repair(raw: Seq<u8>, p: int, k: int)
    requires
        raw.len() == 110,
        0 <= k <= 26,
        0 <= p < 255,
    ensures
        ({
            let s = sanitized_player(raw, p, k);
            &&& s.len() == 110
            &&& raw[0x51] <= 100 ==> s[0x51] == raw[0x51]
            &&& raw[0x51] > 100 ==> s[0x51] == 100 && player_events(raw, p, k)[0] == (
            InvalidPlayerStateEvent::PlayerTaxRate {
                player_idx: p as usize,
                owner_empire_raw: (p + 1) as u8,
                tax_rate: raw[0x51],
            })
            &&& forall|t: int| 1 <= t <= k && t == p + 1 ==> #[trigger] s[0x53 + t] == 0
            &&& forall|t: int|
                1 <= t <= k && t != p + 1 ==> (#[trigger] s[0x53 + t] == if raw[0x53 + t] <= 1 {
                    raw[0x53 + t]
                } else {
                    0
                })
            &&& forall|i: int| 0 <= i < 110 && i != 0x51 && !(0x54 <= i < 0x54 + k) ==> #[trigger] s[i] == raw[i]
            &&& player_events(raw, p, k).len() == (if raw[0x51] > 100 { 1int } else { 0 }) + relation_events(raw, p, k).len()
        }),
{
    let s = sanitized_player(raw, p, k);
    assert forall|t: int| 1 <= t <= k && t == p + 1 implies #[trigger] s[0x53 + t] == 0 by {
        assert(((p + 1) as u8) as int == p + 1);
        assert(0x53 + t - 0x53 == t);
    }
    assert forall|t: int| 1 <= t <= k && t != p + 1 implies (#[trigger] s[0x53 + t] == if raw[0x53 + t] <= 1 {
        raw[0x53 + t]
    } else {
        0
    }) by {
        assert(((p + 1) as u8) as int == p + 1);
    }
}

/// Caps every tax rate at 100 and clears every stored relation byte that is
/// not a relation (toward itself anything but 0, toward another empire
/// anything but 0 or 1), among the empires 1 to the player count (taken as
/// a byte). Returns one event per repair, slot by slot, the tax rate first.
pub fn sanitize_player_record_inputs(game_data: &mut CoreGameData) -> (r: Vec<InvalidPlayerStateEvent>)
    requires
        (old(game_data).player.records@.len() as u8) <= 26,
    ensures
        final(game_data).player.records@.len() == old(game_data).player.records@.len(),
        forall|p: int|
            0 <= p < old(game_data).player.records@.len() ==> (#[trigger] final(game_data).player.records@[p]).raw@
                == sanitized_player(
                old(game_data).player.records@[p].raw@,
                p,
                (old(game_data).player.records@.len() as u8) as int,
            ),
        r@ == sanitize_events(
            old(game_data).player.records@.map_values(|rec: crate::records::player::PlayerRecord| rec.raw@),
            (old(game_data).player.records@.len() as u8) as int,
            old(game_data).player.records@.len() as int,
        ),
        final(game_data).fleets == old(game_data).fleets,
        final(game_data).planets == old(game_data).planets,
        final(game_data).bases == old(game_data).bases,
        final(game_data).ipbm == old(game_data).ipbm,
        final(game_data).setup == old(game_data).setup,
        final(game_data).conquest == old(game_data).conquest,
{
    let ghost start = game_data.player.records@;
    let ghost raws = start.map_values(|rec: crate::records::player::PlayerRecord| rec.raw@);
    let n = game_data.player.records.len();
    let top = n as u8;
    let mut events: Vec<InvalidPlayerStateEvent> = Vec::new();
    let mut p: usize = 0;
    while p < n
        invariant
            p <= n == start.len() == raws.len(),
            top as int == (n as u8) as int,
            top <= 26,
            game_data.player.records@.len() == n,
            raws == start.map_values(|rec: crate::records::player::PlayerRecord| rec.raw@),
            forall|j: int|
                0 <= j < n ==> #[trigger] game_data.player.records@[j].raw@ == if j < p {
                    sanitized_player(start[j].raw@, j, top as int)
                } else {
                    start[j].raw@
                },
            events@ == sanitize_events(raws, top as int, p as int),
            game_data.fleets == old(game_data).fleets,
            game_data.planets == old(game_data).planets,
            game_data.bases == old(game_data).bases,
            game_data.ipbm == old(game_data).ipbm,
            game_data.setup == old(game_data).setup,
            game_data.conquest == old(game_data).conquest,
            start == old(game_data).player.records@,
        decreases n - p,
    {
        let ghost raw0 = start[p as int].raw@;
        let ghost events0 = events@;
        assert(raws[p as int] == raw0);
        assert(raw0.len() == 110);
        let empire = (p + 1) as u8;
        let tax_rate = game_data.player.records[p].tax_rate();
        if tax_rate > 100 {
            game_data.player.records[p].set_tax_rate_raw(100);
            events.push(InvalidPlayerStateEvent::PlayerTaxRate { player_idx: p, owner_empire_raw: empire, tax_rate });
        }
        proof {
            assert(game_data.player.records@[p as int].raw@ =~= Seq::new(
                raw0.len(),
                |i: int|
                    if 0x54 <= i < 0x54 + 0 && relation_problem(raw0, p as int, i - 0x53) is Some {
                        0u8
                    } else if i == 0x51 && raw0[0x51] > 100 {
                        100u8
                    } else {
                        raw0[i]
                    },
            ));
            assert(relation_events(raw0, p as int, 0) =~= Seq::empty());
            assert(events@ =~= events0 + player_events(raw0, p as int, 0) + relation_events(raw0, p as int, 0));
        }
        let mut t: u8 = 0;
        while t < top
            invariant
                t <= top <= 26,
                p < n,
                raw0.len() == 110,
                raw0 == start[p as int].raw@,
                empire as int == ((p + 1) as u8) as int,
                game_data.player.records@.len() == n,
                forall|j: int|
                    0 <= j < n && j != p ==> #[trigger] game_data.player.records@[j].raw@ == if j < p {
                        sanitized_player(start[j].raw@, j, top as int)
                    } else {
                        start[j].raw@
                    },
                game_data.player.records@[p as int].raw@ == Seq::new(
                    raw0.len(),
                    |i: int|
                        if 0x54 <= i < 0x54 + t && relation_problem(raw0, p as int, i - 0x53) is Some {
                            0u8
                        } else if i == 0x51 && raw0[0x51] > 100 {
                            100u8
                        } else {
                            raw0[i]
                        },
                ),
                events@ == events0 + player_events(raw0, p as int, 0) + relation_events(raw0, p as int, t as int),
                events0 == sanitize_events(raws, top as int, p as int),
                game_data.fleets == old(game_data).fleets,
                game_data.planets == old(game_data).planets,
                game_data.bases == old(game_data).bases,
                game_data.ipbm == old(game_data).ipbm,
                game_data.setup == old(game_data).setup,
                game_data.conquest == old(game_data).conquest,
            decreases top - t,
        {
            let target = t + 1;
            let off = 0x54 + t as usize;
            let b = game_data.player.records[p].raw[off];
            let reason = if target == empire {
                if b != 0 {
                    Some(PlayerDiplomacyValidationError::SelfTarget { empire_raw: empire })
                } else {
                    None
                }
            } else if b != 0x00 && b != 0x01 {
                Some(PlayerDiplomacyValidationError::InvalidStoredRelationByte { target_empire_raw: target, raw: b })
            } else {
                None
            };
            assert(b == raw0[0x54 + target - 1]) by {
                assert(game_data.player.records@[p as int].raw@[off as int] == raw0[off as int]);
            }
            assert(reason == relation_problem(raw0, p as int, target as int));
            match reason {
                Some(reason) => {
                    game_data.player.records[p].raw[off] = 0x00;
                    events.push(InvalidPlayerStateEvent::DiplomacyInput { player_idx: p, owner_empire_raw: empire, reason });
                },
                None => {},
            }
            proof {
                assert(game_data.player.records@[p as int].raw@ =~= Seq::new(
                    raw0.len(),
                    |i: int|
                        if 0x54 <= i < 0x54 + target && relation_problem(raw0, p as int, i - 0x53) is Some {
                            0u8
                        } else if i == 0x51 && raw0[0x51] > 100 {
                            100u8
                        } else {
                            raw0[i]
                        },
                ));
                assert(events@ =~= events0 + player_events(raw0, p as int, 0) + relation_events(
                    raw0,
                    p as int,
                    target as int,
                ));
            }
            t = target;
        }
        proof {
            assert(game_data.player.records@[p as int].raw@ =~= sanitized_player(raw0, p as int, top as int));
            assert(relation_events(raw0, p as int, 0) =~= Seq::empty());
            assert(events@ =~= sanitize_events(raws, top as int, p + 1));
        }
        p = p + 1;
    }
    events
}

} // verus!
