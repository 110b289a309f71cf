//! Founding colonies where colony fleets arrived.
use crate::game::CoreGameData;
use crate::maint::events::ColonizationResolvedEvent;
use crate::maint::movement::ColonizationEvent;
use crate::records::planet::PlanetRecord;
use crate::records::player::PlayerRecord;
use vstd::prelude::*;

verus! {

/// The name a new colony gets: "Not Named Yet".
pub open spec fn colony_name() -> Seq<u8> {
    seq![78u8, 111, 116, 32, 78, 97, 109, 101, 100, 32, 89, 101, 116]
}

/// The first of the first `n` planet records that lies at `c`.
pub open spec fn first_planet_at(planets: Seq<Seq<u8>>, c: [u8; 2], n: int) -> Option<int>
    decreases n,
{
    if n <= 0 {
        None
    } else {
        match first_planet_at(planets, c, n - 1) {
            Some(i) => Some(i),
            None => if planets[n - 1][0] == c@[0] && planets[n - 1][1] == c@[1] {
                Some(n - 1)
            } else {
                None
            },
        }
    }
}

/// Planet record `raw` once `owner` founds a colony there: named
/// "Not Named Yet", status 2 (owned), owned by `owner`, one army, the
/// colony flag 0x81 at 0x03.
pub open spec fn colonized_planet(raw: Seq<u8>, owner: u8) -> Seq<u8> {
    Seq::new(
        raw.len(),
        |i: int|
            if 0x10 <= i < 0x1D {
                colony_name()[i - 0x10]
            } else if i == 0x0F {
                13u8
            } else {
                raw[i]
            },
    ).update(0x5C, 2).update(0x5D, owner).update(0x58, 1).update(0x03, 0x81)
}

/// `b` plus one, capped at 255.
pub open spec fn bumped(b: u8) -> u8 {
    if b == 255 {
        255
    } else {
        (b + 1) as u8
    }
}

/// Player record `raw` credited with a new colony: the world count (0x50)
/// and the byte at 0x52 each up by one, capped at 255.
pub open spec fn credited_player(raw: Seq<u8>) -> Seq<u8> {
    raw.update(0x50, bumped(raw[0x50])).update(0x52, bumped(raw[0x52]))
}

/// One arrival on the planet and player records: the first world at the
/// arrival's coordinates is colonized if nobody owns it (and the colonizing
/// empire's slot, empire 0 taken as slot 0, is credited when it exists),
/// else the arrival is blocked; nothing happens where no world lies.
pub open spec fn colonization_step(planets: Seq<Seq<u8>>, players: Seq<Seq<u8>>, e: ColonizationEvent) -> (
    Seq<Seq<u8>>,
    Seq<Seq<u8>>,
    Option<ColonizationResolvedEvent>,
) {
    match first_planet_at(planets, e.coords, planets.len() as int) {
        None => (planets, players, None),
        Some(i) => if planets[i][0x5D] == 0 {
            let slot = if e.owner_empire == 0 {
                0
            } else {
                e.owner_empire - 1
            };
            (
                planets.update(i, colonized_planet(planets[i], e.owner_empire)),
                if slot < players.len() {
                    players.update(slot, credited_player(players[slot]))
                } else {
                    players
                },
                Some(
                    ColonizationResolvedEvent::Succeeded {
                        fleet_idx: e.fleet_idx,
                        planet_idx: i as usize,
                        colonizer_empire_raw: e.owner_empire,
                        stardate_week: None,
                    },
                ),
            )
        } else {
            (
                planets,
                players,
                Some(
                    ColonizationResolvedEvent::BlockedByOwner {
                        fleet_idx: e.fleet_idx,
                        planet_idx: i as usize,
                        colonizer_empire_raw: e.owner_empire,
                        owner_empire_raw: planets[i][0x5D],
                        stardate_week: None,
                    },
                ),
            )
        },
    }
}

/// The first `n` arrivals taken in order: the planet and player records
/// after them, and what was resolved.
pub open spec fn colonization_run(
    planets: Seq<Seq<u8>>,
    players: Seq<Seq<u8>>,
    events: Seq<ColonizationEvent>,
    n: int,
) -> (Seq<Seq<u8>>, Seq<Seq<u8>>, Seq<ColonizationResolvedEvent>)
    decreases n,
{
    if n <= 0 {
        (planets, players, Seq::empty())
    } else {
        let before = colonization_run(planets, players, events, n - 1);
        let step = colonization_step(before.0, before.1, events[n - 1]);
        (
            step.0,
            step.1,
            match step.2 {
                Some(r) => before.2.push(r),
                None => before.2,
            },
        )
    }
}

/// Arrivals never touch a world that already had an owner: its record is
/// the same after any run of arrivals, and the number of planet records
/// does not change.
pub proof fn lemma_owned_worlds_untouched(
    planets: Seq<Seq<u8>>,
    players: Seq<Seq<u8>>,
    events: Seq<ColonizationEvent>,
    n: int,
)
    requires
        0 <= n <= events.len(),
        forall|i: int| 0 <= i < planets.len() ==> (#[trigger] planets[i]).len() > 0x5D,
    ensures
        colonization_run(planets, players, events, n).0.len() == planets.len(),
        forall|i: int|
            0 <= i < planets.len() && planets[i][0x5D] != 0 ==> #[trigger] colonization_run(
                planets,
                players,
                events,
                n,
            ).0[i] == planets[i],
    decreases n,
{
    if n > 0 {
        lemma_owned_worlds_untouched(planets, players, events, n - 1);
        let before = colonization_run(planets, players, events, n - 1);
        lemma_first_planet_bound(before.0, events[n - 1].coords, before.0.len() as int);
    }
}

/// The raw bytes of each planet record.
pub open spec fn planet_raws(planets: Seq<PlanetRecord>) -> Seq<Seq<u8>> {
    planets.map_values(|p: PlanetRecord| p.raw@)
}

/// The raw bytes of each player record.
pub open spec fn player_raws(players: Seq<PlayerRecord>) -> Seq<Seq<u8>> {
    players.map_values(|p: PlayerRecord| p.raw@)
}

pub(crate) proof fn lemma_first_planet_bound(planets: Seq<Seq<u8>>, c: [u8; 2], n: int)
    ensures
        first_planet_at(planets, c, n) matches Some(i) ==> 0 <= i < n,
    decreases n,
{
    if n > 0 {
        lemma_first_planet_bound(planets, c, n - 1);
    }
}

proof fn lemma_first_planet_settles(planets: Seq<Seq<u8>>, c: [u8; 2], m: int, n: int)
    requires
        0 <= m <= n,
    ensures
        first_planet_at(planets, c, m) is Some ==> first_planet_at(planets, c, n) == first_planet_at(planets, c, m),
    decreases n,
{
    if n > m {
        lemma_first_planet_settles(planets, c, m, n - 1);
    }
}

pub(crate) fn planet_at(planets: &[PlanetRecord; 20], c: [u8; 2]) -> (r: Option<usize>)
    ensures
        match first_planet_at(planet_raws(planets@), c, planets@.len() as int) {
            Some(i) => r == Some(i as usize),
            None => r is None,
        },
        r matches Some(i) ==> i < 20,
        first_planet_at(planet_raws(planets@), c, planets@.len() as int) matches Some(i) ==> 0 <= i < 20,
{
    let ghost raws = planet_raws(planets@);
    let mut i: usize = 0;
    while i < planets.len()
        invariant
            i <= planets@.len() == raws.len(),
            raws == planet_raws(planets@),
            first_planet_at(raws, c, i as int) is None,
        decreases planets@.len() - i,
    {
        let pc = planets[i].coords_raw();
        assert(raws[i as int] == planets@[i as int].raw@);
        if pc[0] == c[0] && pc[1] == c[1] {
            proof {
                assert(first_planet_at(raws, c, i + 1) == Some(i as int));
                lemma_first_planet_settles(raws, c, i + 1, planets@.len() as int);
                lemma_first_planet_bound(raws, c, planets@.len() as int);
            }
            return Some(i);
        }
        i = i + 1;
    }
    proof {
        lemma_first_planet_bound(raws, c, planets@.len() as int);
    }
    None
}

fn name_colony(planet: &mut PlanetRecord)
    ensures
        final(planet).raw@ == Seq::new(
            old(planet).raw@.len(),
            |i: int|
                if 0x10 <= i < 0x1D {
                    colony_name()[i - 0x10]
                } else if i == 0x0F {
                    13u8
                } else {
                    old(planet).raw@[i]
                },
        ),
{
    let name: [u8; 13] = [78, 111, 116, 32, 78, 97, 109, 101, 100, 32, 89, 101, 116];
    assert(name@ =~= colony_name());
    let ghost raw0 = planet.raw@;
    planet.raw[0x0F] = 13;
    let mut k: usize = 0;
    while k < 13
        invariant
            k <= 13,
            name@ == colony_name(),
            planet.raw@ == Seq::new(
                raw0.len(),
                |i: int|
                    if 0x10 <= i < 0x10 + k {
                        colony_name()[i - 0x10]
                    } else if i == 0x0F {
                        13u8
                    } else {
                        raw0[i]
                    },
            ),
        decreases 13 - k,
    {
        planet.raw[0x10 + k] = name[k];
        proof {
            assert(planet.raw@ =~= Seq::new(
                raw0.len(),
                |i: int|
                    if 0x10 <= i < 0x10 + k + 1 {
                        colony_name()[i - 0x10]
                    } else if i == 0x0F {
                        13u8
                    } else {
                        raw0[i]
                    },
            ));
        }
        k = k + 1;
    }
}

/// Takes the arrivals in order: each colonizes the first world at its
/// coordinates if nobody owns it (see `colonization_step`), else reports
/// it blocked by the owner. Returns what was resolved, in order.
pub fn process_colonizations(game_data: &mut CoreGameData, events: &[ColonizationEvent]) -> (r: Vec<
    ColonizationResolvedEvent,
>)
    ensures
        ({
            let run = colonization_run(
                planet_raws(old(game_data).planets.records@),
                player_raws(old(game_data).player.records@),
                events@,
                events@.len() as int,
            );
            &&& planet_raws(final(game_data).planets.records@) == run.0
            &&& player_raws(final(game_data).player.records@) == run.1
            &&& r@ == run.2
        }),
        final(game_data).fleets == old(game_data).fleets,
        final(game_data).bases == old(game_data).bases,
        final(game_data).ipbm == old(game_data).ipbm,
        final(game_data).setup == old(game_data).setup,
        final(game_data).conquest == old(game_data).conquest,
{
    let ghost planets0 = planet_raws(game_data.planets.records@);
    let ghost players0 = player_raws(game_data.player.records@);
    let mut resolved: Vec<ColonizationResolvedEvent> = Vec::new();
    let mut k: usize = 0;
    while k < events.len()
        invariant
            k <= events@.len(),
            planets0 == planet_raws(old(game_data).planets.records@),
            players0 == player_raws(old(game_data).player.records@),
            planet_raws(game_data.planets.records@) == colonization_run(planets0, players0, events@, k as int).0,
            player_raws(game_data.player.records@) == colonization_run(planets0, players0, events@, k as int).1,
            resolved@ == colonization_run(planets0, players0, events@, k as int).2,
            game_data.fleets == old(game_data).fleets,
            game_data.bases == old(game_data).bases,
            game_data.ipbm == old(game_data).ipbm,
            game_data.setup == old(game_data).setup,
            game_data.conquest == old(game_data).conquest,
        decreases events@.len() - k,
    {
        let e = events[k];
        let ghost planets1 = planet_raws(game_data.planets.records@);
        let ghost players1 = player_raws(game_data.player.records@);
        let ghost step = colonization_step(planets1, players1, e);
        assert(planets1.len() == 20);
        assert(e == events@[k as int]);
        match planet_at(&game_data.planets.records, e.coords) {
            None => {
                assert(step.0 == planets1);
            },
            Some(idx) => {
                assert(planets1[idx as int] == game_data.planets.records@[idx as int].raw@);
                if game_data.planets.records[idx].owner_empire_slot_raw() == 0 {
                    let mut planet = PlanetRecord { raw: game_data.planets.records[idx].raw };
                    name_colony(&mut planet);
                    planet.set_ownership_status_raw(2);
                    planet.set_owner_empire_slot_raw(e.owner_empire);
                    planet.raw[0x58] = 1;
                    planet.raw[0x03] = 0x81;
                    assert(planet.raw@ =~= colonized_planet(planets1[idx as int], e.owner_empire));
                    game_data.planets.records[idx] = planet;
                    assert(planet_raws(game_data.planets.records@) =~= planets1.update(
                        idx as int,
                        colonized_planet(planets1[idx as int], e.owner_empire),
                    ));
                    let slot: usize = if e.owner_empire == 0 {
                        0
                    } else {
                        (e.owner_empire - 1) as usize
                    };
                    if slot < game_data.player.records.len() {
                        assert(players1[slot as int] == game_data.player.records@[slot as int].raw@);
                        let count = game_data.player.records[slot].raw[0x50];
                        game_data.player.records[slot].raw[0x50] = if count == 255 {
                            255
                        } else {
                            count + 1
                        };
                        let score = game_data.player.records[slot].raw[0x52];
                        game_data.player.records[slot].raw[0x52] = if score == 255 {
                            255
                        } else {
                            score + 1
                        };
                        assert(player_raws(game_data.player.records@) =~= players1.update(
                            slot as int,
                            credited_player(players1[slot as int]),
                        ));
                    }
                    assert(first_planet_at(planets1, e.coords, planets1.len() as int) == Some(idx as int));
                    assert(step.0 == planets1.update(idx as int, colonized_planet(planets1[idx as int], e.owner_empire)));
                    resolved.push(
                        ColonizationResolvedEvent::Succeeded {
                            fleet_idx: e.fleet_idx,
                            planet_idx: idx,
                            colonizer_empire_raw: e.owner_empire,
                            stardate_week: None,
                        },
                    );
                } else {
                    resolved.push(
                        ColonizationResolvedEvent::BlockedByOwner {
                            fleet_idx: e.fleet_idx,
                            planet_idx: idx,
                            colonizer_empire_raw: e.owner_empire,
                            owner_empire_raw: game_data.planets.records[idx].owner_empire_slot_raw(),
                            stardate_week: None,
                        },
                    );
                }
            },
        }
        proof {
            assert(planet_raws(game_data.planets.records@) == step.0);
            assert(player_raws(game_data.player.records@) == step.1);
            assert(resolved@ == match step.2 {
                Some(x) => colonization_run(planets0, players0, events@, k as int).2.push(x),
                None => colonization_run(planets0, players0, events@, k as int).2,
            });
        }
        k = k + 1;
    }
    resolved
}

/// One arrival: it succeeds exactly when the first world at its coordinates
/// is unowned; the new colony then belongs to the colonizer, with status 2,
/// one army, the colony flag 0x81 and the 13-byte name "Not Named Yet",
/// and no other world changes; the colonizer's slot (empire 0 counted as
/// slot 0) has its world count and the byte at 0x52 raised by one, up to
/// 255. A blocked arrival changes nothing and names the owner.
pub proof fn lemma_colony_founded(planets: Seq<Seq<u8>>, players: Seq<Seq<u8>>, e: ColonizationEvent)
    requires
        planets.len() == 20,
        forall|i: int| 0 <= i < planets.len() ==> (#[trigger] planets[i]).len() == 97,
        forall|i: int| 0 <= i < players.len() ==> (#[trigger] players[i]).len() == 110,
    ensures
        ({
            let (p2, q2, r) = colonization_step(planets, players, e);
            &&& p2.len() == planets.len()
            &&& q2.len() == players.len()
            &&& r matches Some(ColonizationResolvedEvent::Succeeded { planet_idx, colonizer_empire_raw, .. }) ==> {
                let i = planet_idx as int;
                let slot = if e.owner_empire == 0 { 0 } else { e.owner_empire - 1 };
                &&& 0 <= i < planets.len()
                &&& planets[i][0] == e.coords@[0] && planets[i][1] == e.coords@[1]
                &&& planets[i][0x5D] == 0
                &&& colonizer_empire_raw == e.owner_empire
                &&& p2[i][0x5D] == e.owner_empire && p2[i][0x5C] == 2 && p2[i][0x58] == 1 && p2[i][0x03] == 0x81
                &&& p2[i][0x0F] == 13
                &&& p2[i].subrange(0x10, 0x1D) == seq![78u8, 111, 116, 32, 78, 97, 109, 101, 100, 32, 89, 101, 116]
                &&& p2[i][0] == planets[i][0] && p2[i][1] == planets[i][1]
                &&& forall|j: int| 0 <= j < planets.len() && j != i ==> #[trigger] p2[j] == planets[j]
                &&& slot < players.len() ==> q2[slot][0x50] == (if players[slot][0x50] == 255 { 255 } else {
                    players[slot][0x50] + 1
                }) && q2[slot][0x52] == (if players[slot][0x52] == 255 { 255 } else { players[slot][0x52] + 1 })
                &&& forall|j: int| 0 <= j < players.len() && j != slot ==> #[trigger] q2[j] == players[j]
            }
            &&& r matches Some(ColonizationResolvedEvent::BlockedByOwner { planet_idx, owner_empire_raw, .. }) ==> {
                &&& p2 == planets
                &&& q2 == players
                &&& owner_empire_raw != 0
                &&& owner_empire_raw == planets[planet_idx as int][0x5D]
            }
            &&& r is None ==> p2 == planets && q2 == players && forall|i: int|
                0 <= i < planets.len() ==> !(planets[i][0] == e.coords@[0] && planets[i][1] == e.coords@[1])
        }),
{
    lemma_first_planet_bound(planets, e.coords, planets.len() as int);
    lemma_first_planet_none(planets, e.coords, planets.len() as int);
    lemma_first_planet_found(planets, e.coords, planets.len() as int);
    match first_planet_at(planets, e.coords, planets.len() as int) {
        Some(i) => {
            if planets[i][0x5D] == 0 {
                let cp = colonized_planet(planets[i], e.owner_empire);
                assert(cp.subrange(0x10, 0x1D) =~= seq![78u8, 111, 116, 32, 78, 97, 109, 101, 100, 32, 89, 101, 116]);
                assert((i as usize) as int == i);
            }
        },
        None => {},
    }
}

proof fn lemma_first_planet_none(planets: Seq<Seq<u8>>, c: [u8; 2], n: int)
    requires
        n <= planets.len(),
    ensures
        first_planet_at(planets, c, n) is None ==> forall|i: int|
            0 <= i < n ==> !(planets[i][0] == c@[0] && planets[i][1] == c@[1]),
    decreases n,
{
    if n > 0 {
        lemma_first_planet_none(planets, c, n - 1);
    }
}

proof fn lemma_first_planet_found(planets: Seq<Seq<u8>>, c: [u8; 2], n: int)
    ensures
        first_planet_at(planets, c, n) matches Some(i) ==> planets[i][0] == c@[0] && planets[i][1] == c@[1],
    decreases n,
{
    if n > 0 {
        lemma_first_planet_found(planets, c, n - 1);
    }
}

} // verus!
