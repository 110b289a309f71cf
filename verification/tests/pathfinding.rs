use ec_data::pathfinding::{
    next_path_step, plan_route, plan_route_with_intel, visible_hazard_intel_from_database,
    PlannedRoute, RouteStep, VisibleHazardIntel,
};
use ec_data::DatabaseDat;
use ec_data::{
    BaseDat, ConquestDat, CoreGameData, FleetDat, FleetRecord, IpbmDat, PlanetDat, PlayerDat,
    SetupDat, CONQUEST_DAT_SIZE, FLEET_RECORD_SIZE, PLANETS_DAT_SIZE, SETUP_DAT_SIZE,
};

fn game_with_fleet(order: u8, from: [u8; 2], to: [u8; 2], players: u8) -> CoreGameData {
    let mut conquest = ConquestDat::parse(&vec![0u8; CONQUEST_DAT_SIZE]).unwrap();
    conquest.set_player_count(players);
    let mut raw = [0u8; FLEET_RECORD_SIZE];
    raw[0x0B] = from[0];
    raw[0x0C] = from[1];
    let mut fleet = FleetRecord { raw };
    fleet.set_standing_order_code_raw(order);
    fleet.set_standing_order_target_coords_raw(to);
    CoreGameData {
        player: PlayerDat { records: Vec::new() },
        planets: PlanetDat::parse(&vec![0u8; PLANETS_DAT_SIZE]).unwrap(),
        fleets: FleetDat { records: vec![fleet] },
        bases: BaseDat { records: Vec::new() },
        ipbm: IpbmDat { records: Vec::new() },
        setup: SetupDat::parse(&vec![0u8; SETUP_DAT_SIZE]).unwrap(),
        conquest,
    }
}

fn coords(route: &PlannedRoute) -> Vec<[u8; 2]> {
    route.steps.iter().map(|s| s.coords).collect()
}

fn assert_valid(route: &PlannedRoute, from: [u8; 2], to: [u8; 2], map: u8) {
    let c = coords(route);
    assert_eq!(c[0], from);
    assert_eq!(*c.last().unwrap(), to);
    for pair in c.windows(2) {
        let dx = (pair[0][0] as i16 - pair[1][0] as i16).abs();
        let dy = (pair[0][1] as i16 - pair[1][1] as i16).abs();
        assert!(dx <= 1 && dy <= 1 && (dx, dy) != (0, 0));
        assert!(pair[1][0] < map && pair[1][1] < map);
    }
}

#[test]
fn diagonal_route_in_open_space() {
    let game = game_with_fleet(1, [2, 2], [5, 5], 4);
    let route = plan_route(&game, 0).expect("route");
    assert_eq!(coords(&route), vec![[2, 2], [3, 3], [4, 4], [5, 5]]);
}

#[test]
fn route_to_own_position_is_single_step() {
    let game = game_with_fleet(1, [7, 7], [7, 7], 4);
    let route = plan_route(&game, 0).expect("route");
    assert_eq!(coords(&route), vec![[7, 7]]);
}

#[test]
fn non_travelling_orders_and_missing_fleets_plan_nothing() {
    let game = game_with_fleet(0, [2, 2], [5, 5], 4);
    assert!(plan_route(&game, 0).is_none());
    let game = game_with_fleet(6, [2, 2], [5, 5], 4);
    assert!(plan_route(&game, 0).is_none());
    assert!(plan_route(&game, 3).is_none());
}

#[test]
fn target_off_the_map_cannot_be_reached() {
    let game = game_with_fleet(1, [2, 2], [30, 30], 4);
    assert!(plan_route(&game, 0).is_none());
}

#[test]
fn route_avoids_known_hazards() {
    let game = game_with_fleet(1, [2, 5], [8, 5], 4);
    let intel = VisibleHazardIntel {
        foreign_worlds: vec![[5, 5], [5, 4], [5, 6]],
        ..VisibleHazardIntel::default()
    };
    let route = plan_route_with_intel(&game, 0, &intel).expect("route");
    assert_valid(&route, [2, 5], [8, 5], 18);
    assert!(coords(&route).iter().all(|c| !intel.foreign_worlds.contains(c)));
    let plain = plan_route(&game, 0).expect("route");
    assert_valid(&plain, [2, 5], [8, 5], 18);
    assert_eq!(plain.steps.len(), 7);
}

#[test]
fn next_step_is_capped_at_route_end() {
    let route = PlannedRoute {
        steps: vec![
            RouteStep { coords: [1, 1] },
            RouteStep { coords: [2, 2] },
            RouteStep { coords: [3, 3] },
        ],
    };
    assert_eq!(next_path_step(&route, 1), Some([2, 2]));
    assert_eq!(next_path_step(&route, 9), Some([3, 3]));
    assert_eq!(next_path_step(&PlannedRoute { steps: vec![] }, 1), None);
    let single = PlannedRoute { steps: vec![RouteStep { coords: [4, 4] }] };
    assert_eq!(next_path_step(&single, 5), Some([4, 4]));
}

#[test]
fn any_target_on_the_map_is_reached_even_through_hazards() {
    let game = game_with_fleet(1, [0, 0], [17, 17], 4);
    let mut walls = Vec::new();
    for y in 0..18u8 {
        walls.push([9, y]);
    }
    let intel = VisibleHazardIntel {
        foreign_starbases: walls.clone(),
        hostile_blockades: walls,
        ..VisibleHazardIntel::default()
    };
    let route = plan_route_with_intel(&game, 0, &intel).expect("route");
    assert_valid(&route, [0, 0], [17, 17], 18);
    let game = game_with_fleet(1, [17, 0], [0, 17], 4);
    let route = plan_route(&game, 0).expect("route");
    assert_valid(&route, [17, 0], [0, 17], 18);
}

#[test]
fn hazard_weighted_search_need_not_find_the_cheapest_route() {
    let game = game_with_fleet(1, [5, 0], [3, 5], 4);
    let intel = VisibleHazardIntel {
        foreign_fleets: vec![[4, 2]],
        foreign_starbases: vec![[4, 1]],
        ..VisibleHazardIntel::default()
    };
    let route = plan_route_with_intel(&game, 0, &intel).expect("route");
    assert_eq!(
        coords(&route),
        vec![[5, 0], [4, 0], [3, 1], [3, 2], [3, 3], [3, 4], [3, 5]]
    );
    // Six steps at 10 each; the five-step route (5,1) (5,2) (4,3) (3,4) (3,5)
    // avoids both hazards too and costs only 50.
    assert_eq!(route.steps.len() - 1, 6);
}

#[test]
fn hazards_come_from_the_viewers_own_database() {
    let mut game = game_with_fleet(5, [3, 3], [3, 3], 4);
    game.fleets.records[0].set_owner_empire_raw(2);
    for (i, c) in [[1u8, 1u8], [2, 2], [3, 3], [4, 4]].iter().enumerate() {
        game.planets.records[i].raw[0] = c[0];
        game.planets.records[i].raw[1] = c[1];
    }
    game.planets.records[2].raw[0x5D] = 1;
    let mut db = DatabaseDat::new_zeroed();
    // Viewer 1 knows world 0 as an enemy homeworld and world 1 by name only
    // as unknown; world 3 is its own entry.
    db.record_mut(0, 0).set_planet_name("Vega");
    db.record_mut(0, 0).raw[0x15] = 2;
    db.record_mut(0, 0).raw[0x1c] = 100;
    db.record_mut(1, 0).set_planet_name("unknown");
    db.record_mut(1, 0).raw[0x15] = 3;
    db.record_mut(3, 0).set_planet_name("Home");
    db.record_mut(3, 0).raw[0x15] = 1;
    let intel = visible_hazard_intel_from_database(&game, &db, 1);
    assert_eq!(intel.foreign_worlds, vec![[1, 1]]);
    assert_eq!(intel.hostile_homeworlds, vec![[1, 1]]);
    assert_eq!(intel.hostile_blockades, vec![[3, 3]]);
    assert!(intel.foreign_starbases.is_empty() && intel.foreign_fleets.is_empty());
    // The blockading fleet's own empire sees no blockade.
    let intel = visible_hazard_intel_from_database(&game, &db, 2);
    assert!(intel.hostile_blockades.is_empty());
}
