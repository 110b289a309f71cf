use ec_data::starmap::PlayerStarmapWorld;
use ec_data::storage::settings::{
    normalize_theme_key, validate_reservations, CampaignSettings, CampaignStoreError,
    SeatReservation, SessionLeaseState, DEFAULT_CAMPAIGN_THEME_KEY,
    DEFAULT_MAINTENANCE_INTERVAL_MINUTES,
};
use ec_data::storage::IntelTier;

fn invalid(msg: &str) -> CampaignStoreError {
    CampaignStoreError::InvalidState(msg.to_string())
}

fn seat(player: usize, alias: &str) -> SeatReservation {
    SeatReservation {
        player_record_index_1_based: player,
        alias: alias.to_string(),
    }
}

#[test]
fn intel_tier_from_fields() {
    assert_eq!(IntelTier::infer_from_fields(2, Some(2), None, None, None, None), IntelTier::Owned);
    assert_eq!(IntelTier::infer_from_fields(2, Some(3), Some("X"), None, Some(4), None), IntelTier::Full);
    assert_eq!(IntelTier::infer_from_fields(2, None, None, None, None, Some(1)), IntelTier::Full);
    assert_eq!(IntelTier::infer_from_fields(2, Some(3), None, None, None, None), IntelTier::Partial);
    assert_eq!(IntelTier::infer_from_fields(2, None, None, Some(50), None, None), IntelTier::Partial);
    assert_eq!(IntelTier::infer_from_fields(2, None, None, None, None, None), IntelTier::Unknown);
}

#[test]
fn intel_tier_from_world() {
    let world = PlayerStarmapWorld {
        planet_record_index_1_based: 1,
        coords: [1, 1],
        known_name: Some("Home".to_string()),
        known_owner_empire_id: Some(1),
        known_owner_empire_name: None,
        known_potential_production: None,
        known_armies: None,
        known_ground_batteries: None,
        known_current_production: None,
        known_stored_points: None,
        known_docked_summary: None,
        known_orbit_summary: None,
    };
    assert_eq!(IntelTier::infer_from_world(1, &world), IntelTier::Owned);
    assert_eq!(IntelTier::infer_from_world(2, &world), IntelTier::Partial);
}

#[test]
fn intel_tier_names_round_trip() {
    for tier in [IntelTier::Owned, IntelTier::Full, IntelTier::Partial, IntelTier::Unknown] {
        assert_eq!(IntelTier::from_str(tier.as_str()), tier);
    }
    assert_eq!(IntelTier::Partial.as_str(), "partial");
    assert_eq!(IntelTier::from_str("bogus"), IntelTier::Unknown);
    assert!(IntelTier::Owned < IntelTier::Unknown);
}

#[test]
fn lease_state_names_round_trip() {
    assert_eq!(SessionLeaseState::PendingSsh.as_str(), "pending_ssh");
    assert_eq!(SessionLeaseState::Active.as_str(), "active");
    for state in [SessionLeaseState::PendingSsh, SessionLeaseState::Active] {
        assert_eq!(SessionLeaseState::parse(state.as_str()), Some(state));
    }
    assert_eq!(SessionLeaseState::parse("closed"), None);
}

#[test]
fn new_settings_have_the_defaults_and_validate() {
    let settings = CampaignSettings::new("alpha", "Alpha Game");
    assert_eq!(settings.default_theme_key, DEFAULT_CAMPAIGN_THEME_KEY);
    assert_eq!(settings.maintenance_interval_minutes, DEFAULT_MAINTENANCE_INTERVAL_MINUTES);
    assert_eq!(DEFAULT_MAINTENANCE_INTERVAL_MINUTES, 1440);
    assert_eq!(settings.session_max_idle_minutes, 10);
    assert!(settings.snoop_enabled);
    assert!(settings.session_remote_timeout);
    assert_eq!(settings.clone().validate(), Ok(settings));
}

#[test]
fn validate_refuses_each_rule() {
    let base = CampaignSettings::new("alpha", "Alpha Game");
    let mut s = base.clone();
    s.slug = "   ".to_string();
    assert_eq!(s.validate(), Err(invalid("campaign slug must not be blank")));
    let mut s = base.clone();
    s.game_name = String::new();
    assert_eq!(s.validate(), Err(invalid("campaign game_name must not be blank")));
    let mut s = base.clone();
    s.default_theme_key = "\t".to_string();
    assert_eq!(s.validate(), Err(invalid("campaign default_theme_key must not be blank")));
    let mut s = base.clone();
    s.session_max_idle_minutes = 121;
    assert_eq!(s.validate(), Err(invalid("session_max_idle_minutes must be <= 120, got 121")));
    let mut s = base.clone();
    s.session_minimum_time_minutes = 200;
    assert_eq!(s.validate(), Err(invalid("session_minimum_time_minutes must be <= 120, got 200")));
    let mut s = base.clone();
    s.inactivity_purge_after_turns = 101;
    assert_eq!(s.validate(), Err(invalid("inactivity_purge_after_turns must be <= 100, got 101")));
    let mut s = base.clone();
    s.inactivity_autopilot_after_turns = 255;
    assert_eq!(s.validate(), Err(invalid("inactivity_autopilot_after_turns must be <= 100, got 255")));
    let mut s = base.clone();
    s.maintenance_interval_minutes = 0;
    assert_eq!(s.validate(), Err(invalid("maintenance_interval_minutes must be >= 1")));
}

#[test]
fn reservations_are_checked_in_order() {
    assert_eq!(validate_reservations(&vec![seat(1, "a"), seat(2, "b")]), Ok(()));
    assert_eq!(
        validate_reservations(&vec![seat(0, "a")]),
        Err(invalid("reservation player must be >= 1"))
    );
    assert_eq!(
        validate_reservations(&vec![seat(3, "a"), seat(3, "b")]),
        Err(invalid("duplicate reservation for player 3"))
    );
    assert_eq!(
        validate_reservations(&vec![seat(1, "  ")]),
        Err(invalid("reservation alias must contain at least one visible character"))
    );
    assert_eq!(
        validate_reservations(&vec![seat(1, "Bob"), seat(2, " bOB ")]),
        Err(invalid("duplicate reservation alias ' bOB '"))
    );
}

#[test]
fn validate_reports_reservation_problems() {
    let mut s = CampaignSettings::new("alpha", "Alpha Game");
    s.reservations = vec![seat(2, "x"), seat(2, "y")];
    assert_eq!(s.validate(), Err(invalid("duplicate reservation for player 2")));
}

#[test]
fn reservation_lookup_by_alias_and_player() {
    let mut s = CampaignSettings::new("alpha", "Alpha Game");
    s.reservations = vec![seat(1, "alpha"), seat(2, "Beta")];
    assert_eq!(s.reservation_for_alias("  ALPHA "), Some(&seat(1, "alpha")));
    assert_eq!(s.reservation_for_alias("beta"), Some(&seat(2, "Beta")));
    assert_eq!(s.reservation_for_alias("gamma"), None);
    assert_eq!(s.reservation_for_player(2), Some(&seat(2, "Beta")));
    assert_eq!(s.reservation_for_player(3), None);
}

#[test]
fn reservations_must_fit_the_player_count() {
    let mut s = CampaignSettings::new("alpha", "Alpha Game");
    s.reservations = vec![seat(1, "a"), seat(5, "b"), seat(9, "c")];
    assert_eq!(s.validate_reservations_for_player_count(9), Ok(()));
    assert_eq!(
        s.validate_reservations_for_player_count(4),
        Err(invalid("reservation player 5 exceeds player count 4"))
    );
}

#[test]
fn maintenance_due_needs_enabled_and_due_time() {
    let mut s = CampaignSettings::new("alpha", "Alpha Game");
    s.maintenance_next_due_unix_seconds = Some(100);
    assert!(!s.maintenance_due_at(200));
    s.maintenance_enabled = true;
    assert!(s.maintenance_due_at(100));
    assert!(!s.maintenance_due_at(99));
    s.maintenance_next_due_unix_seconds = None;
    assert!(!s.maintenance_due_at(u64::MAX));
}

#[test]
fn theme_keys_are_normalized() {
    assert_eq!(normalize_theme_key("  Tokyo-Night \n"), "tokyo_night");
    assert_eq!(normalize_theme_key("SOLARIZED-DARK-2"), "solarized_dark_2");
}
