use irontrack::geodesy::geoid::{geoid_input_ok, Egm2008Model, GeoidModel, NINETY_DEG_BITS};

#[test]
fn geoid_domain_is_finite_and_within_ninety_degrees() {
    let ok = |lat: f64, lon: f64| geoid_input_ok(lat.to_bits(), lon.to_bits());
    assert!(ok(47.5, -121.5));
    assert!(ok(90.0, 0.0));
    assert!(ok(-90.0, 540.0));
    assert!(!ok(90.000001, 0.0));
    assert!(!ok(-91.0, 0.0));
    assert!(!ok(f64::NAN, 0.0));
    assert!(!ok(0.0, f64::INFINITY));
    assert_eq!(f64::from_bits(NINETY_DEG_BITS), 90.0);
}

#[test]
fn geoid_models_construct() {
    let _a = GeoidModel::new();
    let _b: GeoidModel = Default::default();
    let _c = Egm2008Model::new();
    let _d: Egm2008Model = Default::default();
}

/// Whether the geoid lookups accept `(lat, lon)` in degrees.
fn accepted(lat: f64, lon: f64) -> bool {
    geoid_input_ok(lat.to_bits(), lon.to_bits())
}

#[test]
fn out_of_bounds_lat_rejected() {
    assert!(!accepted(91.0, 0.0));
    assert!(!accepted(-91.0, 0.0));
}

#[test]
fn non_finite_coords_rejected() {
    assert!(!accepted(f64::NAN, 0.0));
    assert!(!accepted(0.0, f64::INFINITY));
    assert!(!accepted(f64::NEG_INFINITY, 0.0));
}

#[test]
fn egm2008_out_of_bounds_rejected() {
    assert!(!accepted(91.0, 0.0));
    assert!(!accepted(f64::NAN, 0.0));
}
