//! Map size by number of players.
use vstd::prelude::*;

verus! {

/// Side length of the square map for a game of `player_count` players.
pub open spec fn map_size_for(player_count: u8) -> u8 {
    if 1 <= player_count <= 4 {
        18
    } else if 5 <= player_count <= 9 {
        27
    } else if 10 <= player_count <= 16 {
        36
    } else {
        45
    }
}

/// Side length of the square map: 18 for up to four players, 27 up to
/// nine, 36 up to sixteen, 45 otherwise.
pub fn map_size_for_player_count(player_count: u8) -> (r: u8)
    ensures
        r == map_size_for(player_count),
{
    match player_count {
        1..=4 => 18,
        5..=9 => 27,
        10..=16 => 36,
        _ => 45,
    }
}

/// The map is made of 9x9-sector blocks, one block per player on the
/// smallest square of blocks that holds them all, at least 2x2: for 1 to 16
/// players the side is 9 times the least `b >= 2` with `b * b` at least the
/// player count; larger counts (and 0) get 45.
pub proof fn lemma_map_blocks(player_count: u8)
    ensures
        map_size_for(player_count) % 9 == 0,
        ({
            let b = map_size_for(player_count) / 9;
            &&& 1 <= player_count <= 16 ==> player_count <= b * b && (b == 2 || (b - 1) * (b - 1) < player_count)
            &&& (player_count == 0 || player_count > 16) ==> b == 5
        }),
{
    let b = map_size_for(player_count) / 9;
    assert(36u8 / 9 == 4 && 45u8 / 9 == 5);
    if 1 <= player_count <= 4 {
        assert(b == 2 && b * b == 4);
    } else if 5 <= player_count <= 9 {
        assert(b == 3 && b * b == 9 && (b - 1) * (b - 1) == 4);
    } else if 10 <= player_count <= 16 {
        assert(map_size_for(player_count) == 36);
        assert(b == 4);
        assert(b * b == 16 && (b - 1) * (b - 1) == 9);
    }
}

} // verus!
