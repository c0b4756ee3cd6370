//! The autopilot export documents and mission item layouts for the plans
//! the exporters are tested with: `n_lines` lines along 51° N, the points of
//! line `li` spaced 0.001° apart from longitude `li * 0.01`, at height
//! `100 + 10 li` metres.

use irontrack::io::dji;
use irontrack::io::qgc::{
    self, mission_items, waypoint_frame, LineShape, MAV_CMD_DO_SET_CAM_TRIGG_DIST, MAV_CMD_NAV_WAYPOINT,
    MAV_FRAME_GLOBAL, MAV_FRAME_GLOBAL_RELATIVE_ALT, MAV_FRAME_MISSION,
};
use irontrack::types::AltitudeDatum;

/// Waypoints `(lon°, lat°, elevation)` of the test plan, stored in radians
/// as a flight line holds them and read back in degrees.
fn minimal_plan(n_lines: usize, pts_per_line: usize) -> Vec<Vec<(f64, f64, f64)>> {
    (0..n_lines)
        .map(|li| {
            let lon_base = li as f64 * 0.01;
            (0..pts_per_line)
                .map(|pi| {
                    let lon = (lon_base + pi as f64 * 0.001_f64).to_radians();
                    let lat = 51.0_f64.to_radians();
                    (lon.to_degrees(), lat.to_degrees(), 100.0 + li as f64 * 10.0)
                })
                .collect()
        })
        .collect()
}

/// `template.kml` of a plan: waypoint texts `lon,lat,alt`.
fn template(plan: &[Vec<(f64, f64, f64)>]) -> String {
    let lines: Vec<Vec<String>> = plan
        .iter()
        .map(|l| l.iter().map(|(lon, lat, alt)| format!("{lon:.9},{lat:.9},{alt:.3}")).collect())
        .collect();
    String::from_utf8(dji::build_template_kml(&lines).ok().unwrap()).unwrap()
}

/// `waylines.wpml` of a plan: waypoint texts `lon,lat` and height.
fn waylines(plan: &[Vec<(f64, f64, f64)>]) -> String {
    let lines: Vec<Vec<(String, String)>> = plan
        .iter()
        .map(|l| l.iter().map(|(lon, lat, alt)| (format!("{lon:.9},{lat:.9}"), format!("{alt:.3}"))).collect())
        .collect();
    String::from_utf8(dji::build_waylines_wpml(&lines).ok().unwrap()).unwrap()
}

fn shapes(n_lines: usize, pts_per_line: usize) -> Vec<LineShape> {
    vec![LineShape { len: pts_per_line, is_transit: false }; n_lines]
}

#[test]
fn template_kml_has_mission_config() {
    let t = template(&minimal_plan(1, 2));
    assert!(t.contains("<wpml:flyToWaylineMode>safely</wpml:flyToWaylineMode>"));
    assert!(t.contains("<wpml:finishAction>goHome</wpml:finishAction>"));
    assert!(t.contains("<wpml:exitOnRCLost>executeLostAction</wpml:exitOnRCLost>"));
    assert!(t.contains("<wpml:executeHeightMode>EGM96</wpml:executeHeightMode>"));
    assert!(t.contains("<wpml:heightMode>EGM96</wpml:heightMode>"));
}

#[test]
fn waylines_wpml_has_waypoints_with_correct_altitude() {
    let w = waylines(&minimal_plan(1, 2));
    assert!(w.contains("<wpml:executeHeight>100.000</wpml:executeHeight>"), "waylines must contain altitude 100.000");
    assert!(w.contains("<wpml:executeHeightMode>EGM96</wpml:executeHeightMode>"));
}

#[test]
fn waylines_wpml_has_action_group_with_take_photo() {
    let w = waylines(&minimal_plan(1, 3));
    assert!(w.contains("<wpml:actionTriggerType>reachPoint</wpml:actionTriggerType>"));
    assert!(w.contains("<wpml:actionActuatorFunc>takePhoto</wpml:actionActuatorFunc>"));
    assert!(w.contains("<wpml:actionGroupStartIndex>0</wpml:actionGroupStartIndex>"));
    assert!(w.contains("<wpml:actionGroupEndIndex>2</wpml:actionGroupEndIndex>"));
}

#[test]
fn waylines_coordinates_are_lon_lat_degrees() {
    let w = waylines(&minimal_plan(1, 2));
    assert!(w.contains("0.000000000,51.000000000"), "coordinates must be lon,lat in degrees");
}

#[test]
fn multi_line_plan_produces_multiple_folders() {
    let w = waylines(&minimal_plan(3, 2));
    assert_eq!(w.matches("<wpml:waylineId>").count(), 3, "one wayline folder per flight line");
}

#[test]
fn egm2008_datum_rejected() {
    assert!(dji::validate_datum(&[AltitudeDatum::Egm2008]).is_err(), "EGM2008 plan must be rejected for DJI export");
}

#[test]
fn wgs84_datum_rejected() {
    assert!(
        dji::validate_datum(&[AltitudeDatum::Wgs84Ellipsoidal]).is_err(),
        "WGS84 plan must be rejected for DJI export"
    );
}

#[test]
fn empty_plan_creates_valid_kmz() {
    assert!(dji::validate_datum(&[]).is_ok());
    assert!(template(&[]).contains("<wpml:missionConfig>"));
    assert!(waylines(&[]).contains("<Document"));
}

#[test]
fn different_altitudes_per_line_preserved() {
    let w = waylines(&minimal_plan(2, 1));
    assert!(w.contains("<wpml:executeHeight>100.000</wpml:executeHeight>"), "line 0 altitude");
    assert!(w.contains("<wpml:executeHeight>110.000</wpml:executeHeight>"), "line 1 altitude");
}

#[test]
fn mission_items_count() {
    let items = mission_items(&shapes(2, 3), waypoint_frame(&[AltitudeDatum::Wgs84Ellipsoidal; 2]));
    assert_eq!(items.len(), 2 * (1 + 3 + 1));
}

#[test]
fn waypoint_command_id_and_frame() {
    let items = mission_items(&shapes(1, 2), waypoint_frame(&[AltitudeDatum::Wgs84Ellipsoidal]));
    assert_eq!(items[1].command, MAV_CMD_NAV_WAYPOINT);
    assert_eq!(items[1].frame, MAV_FRAME_GLOBAL);
    assert_eq!(items[0].command, MAV_CMD_DO_SET_CAM_TRIGG_DIST);
    assert_eq!(items[0].frame, MAV_FRAME_MISSION);
}

#[test]
fn do_jump_ids_are_sequential() {
    let items = mission_items(&shapes(2, 3), waypoint_frame(&[AltitudeDatum::Wgs84Ellipsoidal; 2]));
    for (i, item) in items.iter().enumerate() {
        assert_eq!(item.seq as u64, (i + 1) as u64, "doJumpId must be 1-based sequential");
    }
}

#[test]
fn agl_datum_selects_relative_alt_frame() {
    let frame = waypoint_frame(&[AltitudeDatum::Agl]);
    let items = mission_items(&[LineShape { len: 1, is_transit: false }], frame);
    assert_eq!(items[1].frame, MAV_FRAME_GLOBAL_RELATIVE_ALT, "AGL datum must use MAV_FRAME_GLOBAL_RELATIVE_ALT");
}

#[test]
fn empty_plan_produces_empty_items() {
    assert!(mission_items(&[], waypoint_frame(&[])).is_empty());
}

#[test]
fn multi_line_trigger_pattern() {
    let items = mission_items(&shapes(2, 2), waypoint_frame(&[AltitudeDatum::Wgs84Ellipsoidal; 2]));
    let actual: Vec<u64> = items.iter().map(|i| i.command as u64).collect();
    assert_eq!(actual, vec![206, 16, 16, 206, 206, 16, 16, 206]);
}

#[test]
fn egm2008_datum_rejected_by_write() {
    assert!(qgc::validate_datum(&[AltitudeDatum::Egm2008]).is_err(), "EGM2008 plan must be rejected for QGC export");
}

#[test]
fn mixed_datum_rejected_by_write() {
    assert!(qgc::validate_datum(&[AltitudeDatum::Wgs84Ellipsoidal, AltitudeDatum::Agl]).is_err());
}
