use ec_data::mapgen::{
    fallback_frontier_world, fallback_local_world, frontier_potentials, map_size_for_player_count,
    Lcg,
};

#[test]
fn lcg_follows_its_recurrence() {
    let mut rng = Lcg::new(42);
    assert_eq!(rng.state, 9039304369631583587);
    assert_eq!(rng.next_u32(), 2349234752);
    assert_eq!(rng.next_u32(), 1361171511);
    assert_eq!(rng.next_u8(), 239);
    assert_eq!(rng.next_u8(), 159);
}

#[test]
fn lcg_range_stays_in_bounds() {
    let mut rng = Lcg::new(42);
    assert_eq!(rng.range_u8(1, 16), 1);
    let before = rng.state;
    assert_eq!(rng.range_u8(9, 9), 9);
    assert_eq!(rng.range_u8(9, 3), 9);
    assert_eq!(rng.state, before);
    for _ in 0..100 {
        let v = rng.range_u8(1, 16);
        assert!((1..=16).contains(&v));
    }
}

#[test]
fn frontier_potentials_are_drawn_then_shuffled() {
    let mut rng = Lcg::new(7);
    let values = frontier_potentials(5, &mut rng);
    assert_eq!(values, vec![113, 70, 57, 73, 135]);
    assert_eq!(rng.state, 18182615947744899126);
}

#[test]
fn frontier_potentials_stay_in_range() {
    for seed in 0..20u64 {
        let mut rng = Lcg::new(seed);
        let values = frontier_potentials(12, &mut rng);
        assert_eq!(values.len(), 12);
        assert!(values.iter().all(|v| (35..=150).contains(v)));
        assert!(values.iter().any(|v| *v >= 130));
    }
    let mut rng = Lcg::new(1);
    assert!(frontier_potentials(0, &mut rng).is_empty());
}

#[test]
fn local_fallback_takes_the_first_free_sector() {
    assert_eq!(fallback_local_world([5, 5], 18, &[]), [1, 1]);
    assert_eq!(fallback_local_world([5, 5], 18, &[[1, 1]]), [1, 2]);
    assert_eq!(fallback_local_world([9, 9], 18, &[[5, 5], [5, 6]]), [5, 7]);
}

#[test]
fn local_fallback_skips_the_homeworld_and_gives_up_with_one_one() {
    let mut used = Vec::new();
    for x in 1..=3u8 {
        for y in 1..=3u8 {
            used.push([x, y]);
        }
    }
    assert_eq!(fallback_local_world([1, 1], 4, &used), [1, 1]);
    assert_eq!(fallback_local_world([2, 2], 4, &[[1, 1], [1, 2]]), [2, 1]);
}

#[test]
fn frontier_fallback_spirals_out_from_the_center() {
    assert_eq!(fallback_frontier_world(18, &[]), [9, 9]);
    assert_eq!(fallback_frontier_world(18, &[[9, 9]]), [8, 8]);
    assert_eq!(fallback_frontier_world(18, &[[9, 9], [8, 8]]), [8, 9]);
    assert_eq!(fallback_frontier_world(3, &[[1, 1]]), [1, 1]);
}

#[test]
fn map_size_grows_with_players() {
    assert_eq!(map_size_for_player_count(1), 18);
    assert_eq!(map_size_for_player_count(4), 18);
    assert_eq!(map_size_for_player_count(5), 27);
    assert_eq!(map_size_for_player_count(16), 36);
    assert_eq!(map_size_for_player_count(17), 45);
}
