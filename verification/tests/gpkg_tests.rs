use irontrack::gpkg::binary::{
    encode_empty_point, encode_linestring, encode_linestring_z, parse_envelope_maxx,
    parse_envelope_maxy, parse_envelope_minx, parse_envelope_miny, parse_is_empty, QUIET_NAN_LE,
};
use irontrack::gpkg::init::{
    contents_bbox_sql, count_rows_sql, count_rtree_sql, feature_table_ddl, insert_line_sql,
    plan_bbox, required_srs, validate_identifier, CREATION_PRAGMAS, MANDATORY_TABLES_SQL,
    REGISTER_CONTENTS_SQL, REGISTER_GEOMETRY_SQL, SEED_SRS_SQL, SESSION_PRAGMAS, WGS84_WKT,
};
use irontrack::gpkg::rtree::{build_trigger_sql, rtree_table_sql, REGISTER_RTREE_EXTENSION_SQL};
use irontrack::error::GpkgError;
use rusqlite::functions::FunctionFlags;

fn xy(x: f64, y: f64) -> (u64, u64) {
    (x.to_bits(), y.to_bits())
}

fn xyz(x: f64, y: f64, z: f64) -> (u64, u64, u64) {
    (x.to_bits(), y.to_bits(), z.to_bits())
}

/// Minimal valid 2-point LineString blob.
fn two_point_line() -> Vec<u8> {
    encode_linestring(&[xy(10.0, 50.0), xy(20.0, 60.0)], 4326)
}

fn two_point_line_z() -> Vec<u8> {
    encode_linestring_z(&[xyz(10.0, 50.0, 100.0), xyz(20.0, 60.0, 200.0)], 4326)
}

fn close(a: f64, b: f64) -> bool {
    (a - b).abs() <= 1e-12
}

#[test]
fn binary_binary_header_magic_gp() {
    let blob = two_point_line();
    assert_eq!(blob[0], 0x47, "magic[0] must be 0x47 ('G')");
    assert_eq!(blob[1], 0x50, "magic[1] must be 0x50 ('P')");
}

#[test]
fn mod_binary_header_magic_gp() {
    let blob = encode_linestring(&[xy(0.0, 51.5), xy(0.1, 51.5)], 4326);
    assert_eq!(blob[0], 0x47, "magic byte 0 must be 0x47 ('G')");
    assert_eq!(blob[1], 0x50, "magic byte 1 must be 0x50 ('P')");
}

#[test]
fn binary_version_zero() {
    assert_eq!(two_point_line()[2], 0x00);
}

#[test]
fn binary_flags_le_2d_envelope() {
    // B=1 (LE), E=1 (2D), Y=0, X=0 → 0x03
    assert_eq!(two_point_line()[3], 0x03);
}

#[test]
fn binary_srs_id_4326() {
    let blob = two_point_line();
    let srs_id = i32::from_le_bytes(blob[4..8].try_into().unwrap());
    assert_eq!(srs_id, 4326);
}

#[test]
fn envelope_min_max() {
    let blob = encode_linestring(&[xy(10.0, 50.0), xy(20.0, 60.0), xy(15.0, 55.0)], 4326);
    assert!(close(f64::from_bits(parse_envelope_minx(&blob)), 10.0));
    assert!(close(f64::from_bits(parse_envelope_maxx(&blob)), 20.0));
    assert!(close(f64::from_bits(parse_envelope_miny(&blob)), 50.0));
    assert!(close(f64::from_bits(parse_envelope_maxy(&blob)), 60.0));
}

#[test]
fn wkb_geometry_type_is_linestring() {
    let blob = two_point_line();
    let wkb_type = u32::from_le_bytes(blob[41..45].try_into().unwrap());
    assert_eq!(wkb_type, 2, "WKB type 2 = LineString");
}

#[test]
fn wkb_num_points() {
    let blob = two_point_line();
    let num_points = u32::from_le_bytes(blob[45..49].try_into().unwrap());
    assert_eq!(num_points, 2);
}

#[test]
fn wkb_first_coordinate_lon_lat_order() {
    let blob = two_point_line();
    let x = f64::from_le_bytes(blob[49..57].try_into().unwrap());
    let y = f64::from_le_bytes(blob[57..65].try_into().unwrap());
    assert!(close(x, 10.0));
    assert!(close(y, 50.0));
}

#[test]
fn is_empty_false_for_linestring() {
    assert!(!parse_is_empty(&two_point_line()));
}

#[test]
fn empty_point_magic_and_flags() {
    let blob = encode_empty_point(4326);
    assert_eq!(blob[0], 0x47);
    assert_eq!(blob[1], 0x50);
    // flags: B=1 (LE), E=0 (no envelope), Y=1 (empty) = 0x11
    assert_eq!(blob[3], 0x11);
}

#[test]
fn is_empty_true_for_empty_point() {
    assert!(parse_is_empty(&encode_empty_point(4326)));
}

#[test]
fn empty_point_nan_coordinates() {
    let blob = encode_empty_point(4326);
    let x_bytes: [u8; 8] = blob[13..21].try_into().unwrap();
    let y_bytes: [u8; 8] = blob[21..29].try_into().unwrap();
    assert_eq!(x_bytes, QUIET_NAN_LE);
    assert_eq!(y_bytes, QUIET_NAN_LE);
}

#[test]
fn total_blob_size_linestring_2pts() {
    // Header(8) + envelope_2D(32) + WKB_LS(1+4+4 + 2*16) = 81 bytes
    assert_eq!(two_point_line().len(), 81);
}

#[test]
fn linestring_z_total_blob_size() {
    // Header(8) + envelope_3D(48) + WKB_LSZ(1+4+4 + 2*24) = 113 bytes
    assert_eq!(two_point_line_z().len(), 113);
}

#[test]
fn linestring_z_flags_byte_is_0x05() {
    assert_eq!(two_point_line_z()[3], 0x05);
}

#[test]
fn linestring_z_wkb_type_is_linestringz() {
    let blob = two_point_line_z();
    let wkb_type = u32::from_le_bytes(blob[57..61].try_into().unwrap());
    assert_eq!(wkb_type, 1002, "WKB type 1002 = LineStringZ");
}

#[test]
fn linestring_z_envelope_includes_z_range() {
    let blob = two_point_line_z();
    let minz = f64::from_le_bytes(blob[40..48].try_into().unwrap());
    let maxz = f64::from_le_bytes(blob[48..56].try_into().unwrap());
    assert!(close(minz, 100.0));
    assert!(close(maxz, 200.0));
}

#[test]
fn linestring_z_first_coordinate_xyz() {
    let blob = two_point_line_z();
    let x = f64::from_le_bytes(blob[65..73].try_into().unwrap());
    let y = f64::from_le_bytes(blob[73..81].try_into().unwrap());
    let z = f64::from_le_bytes(blob[81..89].try_into().unwrap());
    assert!(close(x, 10.0));
    assert!(close(y, 50.0));
    assert!(close(z, 100.0));
}

#[test]
fn linestring_z_envelope_xy_matches_2d() {
    let blob2d = encode_linestring(&[xy(10.0, 50.0), xy(20.0, 60.0)], 4326);
    let blob3d = two_point_line_z();
    assert_eq!(&blob3d[8..40], &blob2d[8..40]);
}

#[test]
fn envelope_of_z_blob_read_back_by_parsers() {
    let blob = encode_linestring_z(
        &[xyz(-1.5, 51.0, 10.0), xyz(2.5, 49.0, 5.0), xyz(0.0, 50.0, 7.0)],
        4326,
    );
    assert_eq!(f64::from_bits(parse_envelope_minx(&blob)), -1.5);
    assert_eq!(f64::from_bits(parse_envelope_maxx(&blob)), 2.5);
    assert_eq!(f64::from_bits(parse_envelope_miny(&blob)), 49.0);
    assert_eq!(f64::from_bits(parse_envelope_maxy(&blob)), 51.0);
    assert!(!parse_is_empty(&blob));
}

#[test]
fn envelope_parsers_give_nan_on_short_blob() {
    let short = [0x47u8, 0x50, 0x00];
    assert!(f64::from_bits(parse_envelope_minx(&short)).is_nan());
    assert!(f64::from_bits(parse_envelope_maxy(&short)).is_nan());
    assert!(parse_is_empty(&short));
}

#[test]
fn empty_linestring_has_infinite_envelope() {
    let blob = encode_linestring(&[], 4326);
    assert_eq!(f64::from_bits(parse_envelope_minx(&blob)), f64::INFINITY);
    assert_eq!(f64::from_bits(parse_envelope_maxx(&blob)), f64::NEG_INFINITY);
}

#[test]
fn validate_identifier_accepts_alphanumeric_underscore() {
    assert!(validate_identifier("flight_lines_2024").is_ok());
    assert!(validate_identifier("FlightLines").is_ok());
}

#[test]
fn validate_identifier_rejects_spaces_and_punctuation() {
    assert!(validate_identifier("bad name").is_err());
    assert!(validate_identifier("bad-name").is_err());
    assert!(validate_identifier("bad;name").is_err());
}

#[test]
fn validate_identifier_rejects_empty_string() {
    assert!(validate_identifier("").is_err());
}

#[test]
fn validate_identifier_error_messages() {
    match validate_identifier("") {
        Err(GpkgError::Init(m)) => assert_eq!(m, "identifier must not be empty"),
        _ => panic!("expected Init error"),
    }
    match validate_identifier("bad name") {
        Err(GpkgError::Init(m)) => assert_eq!(
            m,
            "invalid identifier \"bad name\": only ASCII alphanumeric and underscores are allowed"
        ),
        _ => panic!("expected Init error"),
    }
}

#[test]
fn wgs84_definition_carries_epsg_4326_authority() {
    assert!(WGS84_WKT.contains("EPSG") && WGS84_WKT.contains("4326"));
    assert!(WGS84_WKT.ends_with("AUTHORITY[\"EPSG\",\"4326\"]]"));
}

#[test]
fn generated_sql_names_the_table() {
    assert_eq!(
        insert_line_sql("flight_lines"),
        "INSERT INTO flight_lines (line_index, geom) VALUES (?1, ?2)"
    );
    assert_eq!(count_rows_sql("flight_lines"), "SELECT count(*) FROM flight_lines");
    assert_eq!(
        count_rtree_sql("flight_lines"),
        "SELECT count(*) FROM rtree_flight_lines_geom"
    );
    assert_eq!(
        contents_bbox_sql("flight_lines"),
        "SELECT min_x, min_y, max_x, max_y FROM gpkg_contents WHERE table_name='flight_lines'"
    );
    assert_eq!(
        rtree_table_sql("flight_lines", "geom"),
        "CREATE VIRTUAL TABLE IF NOT EXISTS rtree_flight_lines_geom USING rtree(id, minx, maxx, miny, maxy);"
    );
}

#[test]
fn rtree_triggers_install_and_keep_index_in_sync() {
    let conn = rusqlite::Connection::open_in_memory().unwrap();
    conn.execute_batch(&feature_table_ddl("test_features")).unwrap();
    conn.execute_batch(&rtree_table_sql("test_features", "geom")).unwrap();
    conn.execute_batch(&build_trigger_sql("test_features", "geom", "id")).unwrap();
    let trigger_count: i64 = conn
        .query_row(
            "SELECT count(*) FROM sqlite_master WHERE type = 'trigger' AND name LIKE 'rtree_test_features_geom%'",
            [],
            |r| r.get(0),
        )
        .unwrap();
    assert_eq!(trigger_count, 8);

    // Session functions reading the blob envelope, as the daemon registers them.
    let flags = FunctionFlags::SQLITE_UTF8 | FunctionFlags::SQLITE_DETERMINISTIC;
    conn.create_scalar_function("ST_MinX", 1, flags, |ctx| {
        Ok(f64::from_bits(parse_envelope_minx(&ctx.get::<Vec<u8>>(0)?)))
    })
    .unwrap();
    conn.create_scalar_function("ST_MaxX", 1, flags, |ctx| {
        Ok(f64::from_bits(parse_envelope_maxx(&ctx.get::<Vec<u8>>(0)?)))
    })
    .unwrap();
    conn.create_scalar_function("ST_MinY", 1, flags, |ctx| {
        Ok(f64::from_bits(parse_envelope_miny(&ctx.get::<Vec<u8>>(0)?)))
    })
    .unwrap();
    conn.create_scalar_function("ST_MaxY", 1, flags, |ctx| {
        Ok(f64::from_bits(parse_envelope_maxy(&ctx.get::<Vec<u8>>(0)?)))
    })
    .unwrap();
    conn.create_scalar_function("ST_IsEmpty", 1, flags, |ctx| {
        Ok(parse_is_empty(&ctx.get::<Vec<u8>>(0)?))
    })
    .unwrap();

    let blob = encode_linestring_z(&[xyz(10.0, 50.0, 1.0), xyz(20.0, 60.0, 2.0)], 4326);
    conn.execute(&insert_line_sql("test_features"), (0i64, blob))
        .unwrap();
    let n: i64 = conn
        .query_row(&count_rtree_sql("test_features"), [], |r| r.get(0))
        .unwrap();
    assert_eq!(n, 1);
    let (minx, maxy): (f64, f64) = conn
        .query_row("SELECT minx, maxy FROM rtree_test_features_geom", [], |r| {
            Ok((r.get(0)?, r.get(1)?))
        })
        .unwrap();
    assert!((minx - 10.0).abs() < 1e-3);
    assert!((maxy - 60.0).abs() < 1e-3);
    conn.execute("DELETE FROM test_features", []).unwrap();
    let n: i64 = conn
        .query_row(&count_rtree_sql("test_features"), [], |r| r.get(0))
        .unwrap();
    assert_eq!(n, 0);
}

#[test]
fn plan_bbox_of_lines() {
    let lines = vec![
        vec![xy(-1.0, 51.0), xy(0.5, 51.2)],
        vec![xy(0.2, 50.9)],
    ];
    let (min_lon, min_lat, max_lon, max_lat) = plan_bbox(&lines).unwrap();
    assert_eq!(f64::from_bits(min_lon), -1.0);
    assert_eq!(f64::from_bits(min_lat), 50.9);
    assert_eq!(f64::from_bits(max_lon), 0.5);
    assert_eq!(f64::from_bits(max_lat), 51.2);
}

#[test]
fn plan_bbox_empty_plan_is_none() {
    let lines: Vec<Vec<(u64, u64)>> = vec![vec![], vec![]];
    assert!(plan_bbox(&lines).is_none());
}

#[test]
fn gpkg_error_init_display() {
    let e = GpkgError::Init("missing geometry_columns table".to_string());
    assert!(e.message().contains("missing geometry_columns table"));
}

#[test]
fn gpkg_error_serialization_display() {
    let e = GpkgError::Serialization("bad envelope".to_string());
    assert!(e.message().contains("bad envelope"));
}

#[test]
fn gpkg_error_wraps_io_error_text() {
    let e = GpkgError::Io(std::io::Error::new(std::io::ErrorKind::Other, "disk full"));
    assert_eq!(e.message(), "GeoPackage I/O error: disk full");
    let e = irontrack::error::IoError::Serialization("x".to_string());
    assert_eq!(e.message(), "serialization error: x");
}

#[test]
fn application_id_check() {
    assert!(irontrack::gpkg::init::check_application_id(1196444487).is_ok());
    match irontrack::gpkg::init::check_application_id(0) {
        Err(GpkgError::Init(m)) => assert_eq!(
            m,
            "file is not a GeoPackage (application_id=0x00000000, expected 0x47504b47)"
        ),
        _ => panic!("expected Init error"),
    }
    match irontrack::gpkg::init::check_application_id(-1) {
        Err(GpkgError::Init(m)) => assert_eq!(
            m,
            format!("file is not a GeoPackage (application_id={:#010x}, expected 0x47504b47)", -1i64)
        ),
        _ => panic!("expected Init error"),
    }
}

/// A database set up with the library's PRAGMAs, mandatory tables and
/// required spatial reference systems, as a new GeoPackage is.
fn fresh_gpkg() -> rusqlite::Connection {
    let conn = rusqlite::Connection::open_in_memory().unwrap();
    conn.execute_batch(CREATION_PRAGMAS).unwrap();
    conn.execute_batch(SESSION_PRAGMAS).unwrap();
    conn.execute_batch(MANDATORY_TABLES_SQL).unwrap();
    for srs in required_srs() {
        let row = (
            srs.srs_name,
            srs.srs_id,
            srs.organization,
            srs.organization_coordsys_id,
            srs.definition,
            srs.description,
        );
        conn.execute(SEED_SRS_SQL, row).unwrap();
    }
    conn
}

#[test]
fn spatial_ref_sys_seeded_with_required_records() {
    let conn = fresh_gpkg();
    for srs_id in &[-1_i32, 0, 4326] {
        let count: i32 = conn
            .query_row("SELECT count(*) FROM gpkg_spatial_ref_sys WHERE srs_id=?1", [*srs_id], |r| r.get(0))
            .unwrap();
        assert_eq!(count, 1, "srs_id {srs_id} must be seeded");
    }
}

#[test]
fn wgs84_wkt_contains_authority_epsg_4326() {
    let conn = fresh_gpkg();
    let wkt: String = conn
        .query_row("SELECT definition FROM gpkg_spatial_ref_sys WHERE srs_id=4326", [], |r| r.get(0))
        .unwrap();
    assert!(wkt.contains("EPSG") && wkt.contains("4326"), "WKT must contain EPSG:4326 authority: {wkt}");
}

/// Create and register a feature table with its R-tree index, with the
/// library's statements, as the GeoPackage writer does.
fn create_feature_table(conn: &rusqlite::Connection, table: &str) -> Result<(), String> {
    validate_identifier(table).map_err(|e| e.message())?;
    conn.execute_batch(&feature_table_ddl(table)).unwrap();
    conn.execute(REGISTER_CONTENTS_SQL, [table]).unwrap();
    conn.execute(REGISTER_GEOMETRY_SQL, [table]).unwrap();
    conn.execute(REGISTER_RTREE_EXTENSION_SQL, [table, "geom"]).unwrap();
    conn.execute_batch(&rtree_table_sql(table, "geom")).unwrap();
    conn.execute_batch(&build_trigger_sql(table, "geom", "id")).unwrap();
    Ok(())
}

#[test]
fn application_id_is_gpkg_magic() {
    let conn = fresh_gpkg();
    let id: i64 = conn.query_row("PRAGMA application_id", [], |r| r.get(0)).unwrap();
    assert_eq!(id, 1_196_444_487);
}

#[test]
fn user_version_is_gpkg_1_3_0() {
    let conn = fresh_gpkg();
    let v: i64 = conn.query_row("PRAGMA user_version", [], |r| r.get(0)).unwrap();
    assert_eq!(v, 10300);
}

#[test]
fn all_mandatory_tables_exist() {
    let conn = fresh_gpkg();
    for table in &["gpkg_spatial_ref_sys", "gpkg_contents", "gpkg_geometry_columns", "gpkg_extensions"] {
        let count: i32 = conn
            .query_row(
                "SELECT count(*) FROM sqlite_master WHERE type='table' AND name=?1",
                [*table],
                |r| r.get(0),
            )
            .unwrap();
        assert_eq!(count, 1, "mandatory table {table} must exist");
    }
}

#[test]
fn create_feature_table_registers_in_gpkg_contents() {
    let conn = fresh_gpkg();
    create_feature_table(&conn, "flight_lines").unwrap();
    let data_type: String = conn
        .query_row("SELECT data_type FROM gpkg_contents WHERE table_name='flight_lines'", [], |r| r.get(0))
        .unwrap();
    assert_eq!(data_type, "features");
}

#[test]
fn create_feature_table_registers_geometry_columns() {
    let conn = fresh_gpkg();
    create_feature_table(&conn, "flight_lines").unwrap();
    let geom_type: String = conn
        .query_row(
            "SELECT geometry_type_name FROM gpkg_geometry_columns WHERE table_name='flight_lines'",
            [],
            |r| r.get(0),
        )
        .unwrap();
    assert_eq!(geom_type, "LINESTRINGZ");
}

#[test]
fn create_feature_table_invalid_name_is_rejected() {
    let conn = fresh_gpkg();
    let result = create_feature_table(&conn, "bad name; DROP TABLE gpkg_contents;--");
    assert!(result.is_err(), "invalid table name must be rejected");
}

#[test]
fn trigger_sql_valid_on_fresh_gpkg() {
    let conn = fresh_gpkg();
    create_feature_table(&conn, "test_features").unwrap();
    let trigger_count: i64 = conn
        .query_row(
            "SELECT count(*) FROM sqlite_master WHERE type = 'trigger' AND name LIKE 'rtree_test_features_geom%'",
            [],
            |r| r.get(0),
        )
        .unwrap();
    assert_eq!(trigger_count, 8, "GeoPackage spec requires 8 R-tree sync triggers (insert + 6 update + delete)");
    let rtree_exists: bool = conn
        .query_row(
            "SELECT count(*) > 0 FROM sqlite_master WHERE type = 'table' AND name = 'rtree_test_features_geom'",
            [],
            |r| r.get(0),
        )
        .unwrap();
    assert!(rtree_exists, "R-tree virtual table must exist");
    let ext_count: i64 = conn
        .query_row(
            "SELECT count(*) FROM gpkg_extensions WHERE table_name = 'test_features' AND extension_name = 'gpkg_rtree_index'",
            [],
            |r| r.get(0),
        )
        .unwrap();
    assert_eq!(ext_count, 1, "R-tree extension must be registered");
}
