use irontrack::network::nmea::{
    is_ascii_sentence, parse_nmea_coordinate, parse_would_panic, validate_checksum, NmeaCoord, NmeaParser, NmeaUpdate,
};
use irontrack::types::AltitudeDatum;

/// Decimal degrees of a coordinate split by the parser, as the telemetry
/// state computes them: ±(degrees + minutes / 60), minutes in [0, 60).
fn coord_value(c: &NmeaCoord) -> Option<f64> {
    let deg: f64 = c.degrees.parse().ok()?;
    let min: f64 = c.minutes.parse().ok()?;
    if !(0.0..60.0).contains(&min) {
        return None;
    }
    let v = deg + min / 60.0;
    Some(if c.negative { -v } else { v })
}

/// The value of a coordinate field: split by the library, evaluated as above.
fn coordinate(val: &str, dir: &str, deg_len: usize) -> Option<f64> {
    parse_nmea_coordinate(val, dir, deg_len).and_then(|c| coord_value(&c))
}

#[test]
fn coord_standard_latitude() {
    let result = coordinate("4807.038", "N", 2).unwrap();
    assert!((result - 48.1173).abs() < 1e-4);
}

#[test]
fn coord_standard_longitude() {
    let result = coordinate("01131.000", "E", 3).unwrap();
    assert!((result - 11.51667).abs() < 1e-4);
}

#[test]
fn coord_low_degree_longitude() {
    let result = coordinate("00530.000", "E", 3).unwrap();
    assert!((result - 5.5).abs() < 1e-7);
}

#[test]
fn coord_180_longitude() {
    let result = coordinate("18000.000", "E", 3).unwrap();
    assert!((result - 180.0).abs() < 1e-7);
}

#[test]
fn coord_south_negates() {
    let result = coordinate("3330.000", "S", 2).unwrap();
    assert!((result - -33.5).abs() < 1e-7);
}

#[test]
fn coord_west_negates() {
    let result = coordinate("09446.0071", "W", 3).unwrap();
    assert!(result < 0.0);
}

#[test]
fn coord_malformed_too_short_returns_none() {
    assert!(coordinate("1.5", "N", 2).is_none());
}

#[test]
fn coord_malformed_minutes_ge_60_returns_none() {
    assert!(coordinate("4860.000", "N", 2).is_none());
}

#[test]
fn coord_empty_value_returns_none() {
    assert!(coordinate("", "N", 2).is_none());
}

#[test]
fn coord_empty_direction_returns_none() {
    assert!(coordinate("4807.038", "", 2).is_none());
}

#[test]
fn coord_non_numeric_returns_none() {
    assert!(coordinate("ABCD.EFG", "N", 2).is_none());
}

#[test]
fn coord_invalid_hemisphere_returns_none() {
    assert!(coordinate("4807.038", "X", 2).is_none());
}

#[test]
fn coordinate_split_texts() {
    let c = parse_nmea_coordinate("09446.0071", "W", 3).unwrap();
    assert_eq!((c.degrees.as_str(), c.minutes.as_str(), c.negative), ("094", "46.0071", true));
    let c = parse_nmea_coordinate("4807.038", "N", 2).unwrap();
    assert_eq!((c.degrees.as_str(), c.minutes.as_str(), c.negative), ("48", "07.038", false));
    assert!(parse_nmea_coordinate("é807.038", "N", 1).is_none());
}

const GGA: &str = "$GNGGA,123519.00,4807.0381,N,01131.0001,E,4,12,0.9,545.4,M,46.9,M,1.5,0000*53";
const RMC: &str = "$GNRMC,123519.00,A,3855.4487,N,09446.0071,W,125.5,076.2,130495,003.8,E,A*38";
const RMC_LATE: &str =
    "$GNRMC,210230.00,A,3855.4487,N,09446.0071,W,125.5,076.2,130495,003.8,E,A*37";
const GGK: &str =
    "$PTNL,GGK,102939.00,051910,5000.97323841,N,00827.62010742,E,3,09,1.9,EHT150.790,M*75";

#[test]
fn checksum_valid() {
    assert!(validate_checksum(
        "$GNGGA,123519.00,4807.0381,N,01131.0001,E,4,12,0.9,545.4,M,46.9,M,1.5,0000*53"
    ));
}

#[test]
fn checksum_invalid_rejects_corrupted() {
    assert!(!validate_checksum(
        "$GNGGA,123519.00,4807.0381,N,01131.0001,E,4,12,0.9,545.4,M,46.9,M,1.5,0000*48"
    ));
}

#[test]
fn checksum_missing_dollar_sign() {
    assert!(!validate_checksum("GNGGA,123519.00*53"));
}

#[test]
fn checksum_missing_asterisk() {
    assert!(!validate_checksum("$GNGGA,123519.00"));
}

#[test]
fn checksum_lower_case_hex_and_trailing_newline() {
    assert!(validate_checksum(
        "$GNRMC,123519.00,A,3855.4487,N,09446.0071,W,125.5,076.2,130495,003.8,E,A*38\r\n"
    ));
    assert!(!validate_checksum("$GNGGA*5"));
    assert!(!validate_checksum("$A*B*41"));
}

#[test]
fn parse_gga_buffers_without_updating_state() {
    let mut parser = NmeaParser::new();
    let u = parser.parse(GGA);
    assert!(matches!(u, NmeaUpdate::Buffered));
    assert!(!u.applies());
}

#[test]
fn parse_gga_rmc_epoch_match() {
    let mut parser = NmeaParser::new();
    assert!(!parser.parse(GGA).applies());
    let u = parser.parse(RMC);
    assert!(u.applies());
    match u {
        NmeaUpdate::Rmc(rmc, Some(gga)) => {
            assert_eq!(gga.fix_quality, 4);
            assert!((coord_value(&gga.lat).unwrap() - 48.1173016).abs() < 1e-7);
            assert!((coord_value(&gga.lon).unwrap() - 11.5166683).abs() < 1e-7);
            assert_eq!(gga.alt.parse::<f64>().unwrap(), 545.4);
            assert_eq!(gga.alt_datum(), AltitudeDatum::Egm96);
            let speed: f64 = rmc.speed_knots.parse().unwrap();
            assert!((speed * 0.514444 - 125.5 * 0.514444).abs() < 1e-5);
            assert_eq!(rmc.course_deg.parse::<f64>().unwrap(), 76.2);
        }
        _ => panic!("expected a merged epoch"),
    }
}

#[test]
fn parse_rmc_kinematic_only() {
    let mut parser = NmeaParser::new();
    match parser.parse(RMC_LATE) {
        NmeaUpdate::Rmc(rmc, gga) => {
            assert!(gga.is_none());
            let speed: f64 = rmc.speed_knots.parse().unwrap();
            assert!((speed * 0.514444 - 125.5 * 0.514444).abs() < 1e-5);
            assert_eq!(rmc.course_deg.parse::<f64>().unwrap(), 76.2);
        }
        _ => panic!("expected RMC kinematics"),
    }
}

#[test]
fn epoch_mismatch_discards_stale_gga() {
    let mut parser = NmeaParser::new();
    let gga = "$GNGGA,100000.00,4807.0381,N,01131.0001,E,4,12,0.9,545.4,M,46.9,M,1.5,0000*5F";
    let rmc = "$GNRMC,100001.00,A,3855.4487,N,09446.0071,W,125.5,076.2,130495,003.8,E,A*35";
    assert!(!parser.parse(gga).applies());
    match parser.parse(rmc) {
        NmeaUpdate::Rmc(rmc, gga) => {
            assert!(gga.is_none(), "stale GGA must be discarded");
            let speed: f64 = rmc.speed_knots.parse().unwrap();
            assert!((speed * 0.514444 - 125.5 * 0.514444).abs() < 1e-5);
            assert_eq!(rmc.utc_date.as_deref(), Some("130495"));
        }
        _ => panic!("expected RMC kinematics"),
    }
    // The stale GGA was consumed: a matching RMC now carries no position.
    let rmc2 = "$GNRMC,100000.00,A,3855.4487,N,09446.0071,W,125.5,076.2,130495,003.8,E,A*34";
    if let NmeaUpdate::Rmc(_, gga) = parser.parse(rmc2) {
        assert!(gga.is_none());
    }
}

#[test]
fn parse_rmc_extracts_date() {
    let mut parser = NmeaParser::new();
    match parser.parse(RMC_LATE) {
        NmeaUpdate::Rmc(rmc, _) => {
            assert_eq!(rmc.utc_date.as_deref(), Some("130495"));
            assert_eq!(rmc.utc_time.as_deref(), Some("210230.00"));
        }
        _ => panic!("expected RMC"),
    }
}

#[test]
fn parse_gga_extracts_hdop_sats_geoid() {
    let mut parser = NmeaParser::new();
    assert!(!parser.parse(GGA).applies());
    match parser.parse(RMC) {
        NmeaUpdate::Rmc(rmc, Some(gga)) => {
            assert_eq!(gga.satellites_in_use, 12);
            assert!((gga.hdop.parse::<f64>().unwrap() - 0.9).abs() < 1e-6);
            assert!((gga.geoid_separation.parse::<f64>().unwrap() - 46.9).abs() < 1e-6);
            assert_eq!(rmc.utc_time.as_deref(), Some("123519.00"));
        }
        _ => panic!("expected a merged epoch"),
    }
}

#[test]
fn parse_ggk_trimble_fixed() {
    let mut parser = NmeaParser::new();
    let u = parser.parse(GGK);
    assert!(u.applies());
    match u {
        NmeaUpdate::Ggk(g) => {
            assert_eq!(g.fix_quality, Some(4)); // Trimble 3 → standard 4
            assert_eq!(g.alt_datum(), AltitudeDatum::Wgs84Ellipsoidal);
            assert!((g.ellipsoidal_height.parse::<f64>().unwrap() - 150.790).abs() < 1e-3);
            let lat = coord_value(g.lat.as_ref().unwrap()).unwrap();
            assert!((lat - 50.01622064).abs() < 1e-7);
        }
        _ => panic!("expected GGK"),
    }
}

#[test]
fn parse_ggk_does_not_require_rmc_pairing() {
    let mut parser = NmeaParser::new();
    match parser.parse(GGK) {
        NmeaUpdate::Ggk(g) => {
            assert!(coord_value(g.lat.as_ref().unwrap()).unwrap() != 0.0);
            assert!(coord_value(g.lon.as_ref().unwrap()).unwrap() != 0.0);
        }
        _ => panic!("expected GGK"),
    }
}

#[test]
fn ggk_clears_pending_gga() {
    let mut parser = NmeaParser::new();
    let gga = "$GNGGA,102939.00,4807.0381,N,01131.0001,E,4,12,0.9,545.4,M,46.9,M,1.5,0000*5E";
    assert!(!parser.parse(gga).applies());
    assert!(parser.parse(GGK).applies());
    let rmc = "$GNRMC,102939.00,A,5000.9732,N,00827.6201,E,55.0,180.5,290326,003.1,E,R*08";
    match parser.parse(rmc) {
        NmeaUpdate::Rmc(_, gga) => assert!(gga.is_none(), "GGK must clear the buffered GGA"),
        _ => panic!("expected RMC"),
    }
}

#[test]
fn rmc_without_gga_updates_kinematics_only() {
    let mut parser = NmeaParser::new();
    match parser.parse(RMC_LATE) {
        NmeaUpdate::Rmc(rmc, gga) => {
            assert!(gga.is_none());
            assert_eq!(rmc.course_deg.parse::<f64>().unwrap(), 76.2);
        }
        _ => panic!("expected RMC"),
    }
}

#[test]
fn bad_checksum_and_unknown_sentences_are_rejected() {
    let mut parser = NmeaParser::new();
    assert!(matches!(
        parser.parse("$GNGGA,123519.00,4807.0381,N,01131.0001,E,4,12,0.9,545.4,M,46.9,M,1.5,0000*48"),
        NmeaUpdate::Rejected
    ));
    // A VTG sentence with a valid checksum is not used.
    assert!(matches!(parser.parse("$GPVTG*52"), NmeaUpdate::Rejected));
}

#[test]
fn void_rmc_keeps_buffered_gga() {
    let mut parser = NmeaParser::new();
    assert!(!parser.parse(GGA).applies());
    // Status V (warning): rejected, the buffered GGA stays for the next RMC.
    let void_rmc = "$GNRMC,123519.00,V,3855.4487,N,09446.0071,W,125.5,076.2,130495,003.8,E,A*2F";
    assert!(matches!(parser.parse(void_rmc), NmeaUpdate::Rejected));
    match parser.parse(RMC) {
        NmeaUpdate::Rmc(_, gga) => assert!(gga.is_some()),
        _ => panic!("expected RMC"),
    }
}

#[test]
fn ascii_sentences_are_accepted_for_parsing() {
    assert!(is_ascii_sentence(GGA));
    assert!(is_ascii_sentence("$GNRMC,,V*00\r\n"));
    assert!(!is_ascii_sentence("$GNGGA,1235é9*53"));
}

fn with_checksum(body: &str) -> String {
    let x = body.bytes().fold(0u8, |a, b| a ^ b);
    format!("${body}*{x:02X}")
}

#[test]
fn sentences_that_would_be_cut_inside_a_character() {
    assert!(!parse_would_panic(GGA));
    assert!(!parse_would_panic(RMC));
    // Not ASCII, but rejected by its checksum before any field is sliced.
    assert!(!parse_would_panic("$GNGGA,1235é9*53"));
    // The first two checksum bytes end inside '€'.
    assert!(parse_would_panic("$GPGGA*€0"));
    // A valid GGA whose latitude would be split inside '€'.
    let cut = with_checksum("GPGGA,123519,4€07.038,N,01131.000,E,1,08,0.9,545.4,M,46.9,M,,");
    assert!(parse_would_panic(&cut));
    // The same sentence with an ASCII latitude parses.
    let fine = with_checksum("GPGGA,123519,4807.038,N,01131.000,E,1,08,0.9,545.4,M,46.9,M,,");
    assert!(!parse_would_panic(&fine));
    let mut parser = NmeaParser::new();
    assert!(matches!(parser.parse(&fine), NmeaUpdate::Buffered));
}
