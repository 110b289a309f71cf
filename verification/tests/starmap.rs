use ec_data::map_export::{PlayerMapExportData, STARMAP_CSV_FILE_NAME, STARMAP_DETAILS_CSV_FILE_NAME, STARMAP_TEXT_FILE_NAME};
use ec_data::starmap::{csv_field, PlayerStarmapProjection, PlayerStarmapWorld};

fn world(index: usize, coords: [u8; 2]) -> PlayerStarmapWorld {
    PlayerStarmapWorld {
        planet_record_index_1_based: index,
        coords,
        known_name: None,
        known_owner_empire_id: None,
        known_owner_empire_name: None,
        known_potential_production: None,
        known_armies: None,
        known_ground_batteries: None,
        known_current_production: None,
        known_stored_points: None,
        known_docked_summary: None,
        known_orbit_summary: None,
    }
}

fn small_projection() -> PlayerStarmapProjection {
    let mut alpha = world(1, [1, 2]);
    alpha.known_name = Some("Alpha".to_string());
    alpha.known_owner_empire_id = Some(1);
    alpha.known_owner_empire_name = Some("Empire One".to_string());
    alpha.known_potential_production = Some(100);
    alpha.known_armies = Some(5);
    PlayerStarmapProjection {
        map_width: 2,
        map_height: 2,
        year: 3001,
        viewer_empire_id: 1,
        worlds: vec![alpha, world(2, [2, 1])],
    }
}

const SMALL_MAP: &str = "     01  02\n  -|---|---|-\n02 | *     | 02\n  -|- -|- -|-\n01 |     * | 01\n  -|---|---|-\n     01  02";

#[test]
fn ascii_map_marks_every_world() {
    assert_eq!(small_projection().render_ascii_map(), SMALL_MAP);
}

#[test]
fn ascii_map_splits_wide_maps_into_pages() {
    let projection = PlayerStarmapProjection {
        map_width: 20,
        map_height: 1,
        year: 3000,
        viewer_empire_id: 1,
        worlds: Vec::new(),
    };
    let map = projection.render_ascii_map();
    let pages: Vec<&str> = map.split("\n\n\x0c\n").collect();
    assert_eq!(pages.len(), 2);
    assert!(pages[0].starts_with("     01  02  03"));
    assert!(pages[0].contains("  17  18"));
    assert!(!pages[0].contains("  19"));
    assert!(pages[1].starts_with("     19  20\n"));
}

#[test]
fn ascii_map_of_zero_width_is_empty() {
    let projection = PlayerStarmapProjection {
        map_width: 0,
        map_height: 3,
        year: 3000,
        viewer_empire_id: 1,
        worlds: Vec::new(),
    };
    assert_eq!(projection.render_ascii_map(), "");
}

#[test]
fn ascii_export_lists_known_worlds() {
    let text = small_projection().render_ascii_export();
    let expected = format!(
        "ESTERIAN CONQUEST STARMAP  YEAR 3001  EMPIRE 1\n\n{}\n\nKNOWN WORLD DETAILS\n-------------------\n(01,02)  Alpha           OWNER Empire One            PROD 100  ARM   5  BAT   -\n",
        SMALL_MAP
    );
    assert_eq!(text, expected);
}

#[test]
fn ascii_export_without_known_worlds_has_no_list() {
    let mut projection = small_projection();
    projection.worlds = vec![world(1, [1, 1])];
    let text = projection.render_ascii_export();
    assert!(!text.contains("KNOWN WORLD DETAILS"));
}

#[test]
fn csv_export_writes_the_grid() {
    assert_eq!(small_projection().render_csv_export(), ",01,02\n02,*,\n01,,*\n");
}

#[test]
fn csv_export_separates_pages_with_a_blank_line() {
    let projection = PlayerStarmapProjection {
        map_width: 19,
        map_height: 1,
        year: 3000,
        viewer_empire_id: 1,
        worlds: vec![world(1, [19, 1])],
    };
    let csv = projection.render_csv_export();
    assert!(csv.ends_with(",,,,,,,,,,,,,,,,,\n\n,19\n01,*\n"));
}

#[test]
fn csv_details_export_lists_known_worlds() {
    assert_eq!(
        small_projection().render_csv_details_export(),
        "x,y,known_name,known_owner_empire_id,known_owner_empire_name,known_potential_production,known_armies,known_ground_batteries\n01,02,Alpha,1,Empire One,100,5,\n"
    );
}

#[test]
fn known_worlds_are_listed_by_row_then_column() {
    let mut a = world(1, [3, 2]);
    a.known_name = Some("A".to_string());
    let mut b = world(2, [5, 1]);
    b.known_name = Some("B".to_string());
    let mut c = world(3, [1, 2]);
    c.known_armies = Some(1);
    let projection = PlayerStarmapProjection {
        map_width: 6,
        map_height: 3,
        year: 3000,
        viewer_empire_id: 2,
        worlds: vec![a, b, c],
    };
    let csv = projection.render_csv_details_export();
    let lines: Vec<&str> = csv.lines().skip(1).collect();
    assert_eq!(lines, vec!["05,01,B,,,,,", "01,02,,,,,1,", "03,02,A,,,,,"]);
}

#[test]
fn csv_field_quotes_when_needed() {
    assert_eq!(csv_field(None), "");
    assert_eq!(csv_field(Some("plain")), "plain");
    assert_eq!(csv_field(Some("a,b\"c")), "\"a,b\"\"c\"");
    assert_eq!(csv_field(Some("two\nlines")), "\"two\nlines\"");
}

#[test]
fn map_export_files_have_fixed_names() {
    let data = PlayerMapExportData {
        ascii_export: "text".to_string(),
        csv_export: "grid".to_string(),
        csv_details_export: "details".to_string(),
    };
    let files = data.fixed_named_files();
    assert_eq!(files.len(), 3);
    assert_eq!(files[0].name, STARMAP_TEXT_FILE_NAME);
    assert_eq!(files[0].contents, "text");
    assert_eq!(files[1].name, STARMAP_CSV_FILE_NAME);
    assert_eq!(files[1].contents, "grid");
    assert_eq!(files[2].name, STARMAP_DETAILS_CSV_FILE_NAME);
    assert_eq!(files[2].contents, "details");
    assert_eq!(files[2].name, "starmap-DETAILS.csv");
}
