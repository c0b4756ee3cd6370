use irontrack::dem::cache::{copernicus_url, coverage_ok, normalize_antimeridian, tile_filename, DemCache};
use irontrack::dem::copernicus::{col_count_for_lat, tile_from_bytes, tile_from_decoded};

#[test]
fn filename_north_west() {
    assert_eq!(
        tile_filename(47, -122),
        "Copernicus_DSM_COG_10_N47_00_W122_00_DEM.tif"
    );
}

#[test]
fn filename_south_east() {
    assert_eq!(
        tile_filename(-34, 18),
        "Copernicus_DSM_COG_10_S34_00_E018_00_DEM.tif"
    );
}

#[test]
fn filename_north_east() {
    assert_eq!(
        tile_filename(51, 0),
        "Copernicus_DSM_COG_10_N51_00_E000_00_DEM.tif"
    );
}

#[test]
fn filename_south_west() {
    assert_eq!(
        tile_filename(-1, -1),
        "Copernicus_DSM_COG_10_S01_00_W001_00_DEM.tif"
    );
}

#[test]
fn filename_origin() {
    assert_eq!(
        tile_filename(0, 0),
        "Copernicus_DSM_COG_10_N00_00_E000_00_DEM.tif"
    );
}

#[test]
fn filename_extreme_south_west() {
    assert_eq!(
        tile_filename(-60, -180),
        "Copernicus_DSM_COG_10_S60_00_W180_00_DEM.tif"
    );
}

#[test]
fn filename_extreme_north_east() {
    assert_eq!(
        tile_filename(89, 179),
        "Copernicus_DSM_COG_10_N89_00_E179_00_DEM.tif"
    );
}

#[test]
fn url_contains_s3_domain_and_tile_name() {
    let url = copernicus_url(47, -122);
    assert!(url.contains("copernicus-dem-30m.s3.amazonaws.com"), "{url}");
    assert!(url.contains("N47"), "{url}");
    assert!(url.contains("W122"), "{url}");
    assert!(url.ends_with(".tif"), "{url}");
}

#[test]
fn url_is_bucket_folder_and_file() {
    assert_eq!(
        copernicus_url(-34, 18),
        "https://copernicus-dem-30m.s3.amazonaws.com/Copernicus_DSM_COG_10_S34_00_E018_00_DEM/Copernicus_DSM_COG_10_S34_00_E018_00_DEM.tif"
    );
}

#[test]
fn cache_tile_path_matches_filename() {
    let dir = tempfile::tempdir().expect("tempdir");
    let dir_text = dir.path().to_str().unwrap().to_string();
    let cache = DemCache::with_dir(dir_text);
    let path = cache.tile_path(47, -122);
    let path = std::path::Path::new(&path);
    assert_eq!(
        path.file_name().unwrap().to_str().unwrap(),
        "Copernicus_DSM_COG_10_N47_00_W122_00_DEM.tif"
    );
    assert!(path.starts_with(dir.path()));
}

#[test]
fn cache_dir_and_download_flag() {
    let cache = DemCache::with_dir("/tmp/dem".to_string());
    assert_eq!(cache.cache_dir(), "/tmp/dem");
    assert!(!cache.download_missing());
    let cache = DemCache::downloading("/tmp/dem".to_string());
    assert!(cache.download_missing());
}

#[test]
fn missing_tile_message_names_tile_url_and_dir() {
    let cache = DemCache::with_dir("/tmp/dem".to_string());
    let m = cache.missing_tile_message(51, 0);
    assert_eq!(
        m,
        "Tile Copernicus_DSM_COG_10_N51_00_E000_00_DEM.tif not in cache.\nDownload: https://copernicus-dem-30m.s3.amazonaws.com/Copernicus_DSM_COG_10_N51_00_E000_00_DEM/Copernicus_DSM_COG_10_N51_00_E000_00_DEM.tif\nPlace the .tif file in: /tmp/dem"
    );
}

#[test]
fn get_tile_missing_error_contains_tile_name() {
    let cache = DemCache::with_dir("/tmp/dem".to_string());
    let err = cache.missing_tile_message(47, -122);
    assert!(err.contains("N47"), "{err}");
    assert!(err.contains("W122"), "{err}");
}

#[test]
fn get_tile_missing_error_contains_download_url() {
    let cache = DemCache::with_dir("/tmp/dem".to_string());
    let err = cache.missing_tile_message(47, -122);
    assert!(err.contains("copernicus-dem-30m.s3.amazonaws.com"), "error should contain Copernicus S3 URL: {err}");
}

#[test]
fn col_count_table_spot_checks() {
    assert_eq!(col_count_for_lat(0), 3600);
    assert_eq!(col_count_for_lat(49), 3600);
    assert_eq!(col_count_for_lat(50), 2400);
    assert_eq!(col_count_for_lat(70), 1200);
    assert_eq!(col_count_for_lat(85), 360);
    // Negative latitudes (southern hemisphere) mirror positive.
    assert_eq!(col_count_for_lat(-45), 3600);
    assert_eq!(col_count_for_lat(-65), 1800);
}

#[test]
fn col_count_band_edges() {
    assert_eq!(col_count_for_lat(59), 2400);
    assert_eq!(col_count_for_lat(60), 1800);
    assert_eq!(col_count_for_lat(69), 1800);
    assert_eq!(col_count_for_lat(79), 1200);
    assert_eq!(col_count_for_lat(80), 720);
    assert_eq!(col_count_for_lat(84), 720);
    assert_eq!(col_count_for_lat(-50), 2400);
    assert_eq!(col_count_for_lat(-90), 360);
}

/// Whether the DEM is queried at `(lat, lon)` degrees.
fn covered(lat: f64, lon: f64) -> bool {
    coverage_ok(lat.to_bits(), lon.to_bits())
}

/// The tile a covered coordinate is looked up in: the antimeridian is
/// normalised, then the south-west corner is the floor of each value.
fn tile_of(lat: f64, lon: f64) -> (i32, i32) {
    let lon = f64::from_bits(normalize_antimeridian(lon.to_bits()));
    (lat.floor() as i32, lon.floor() as i32)
}

#[test]
fn provider_nan_lat_returns_error() {
    assert!(!covered(f64::NAN, 0.0));
}

#[test]
fn provider_lat_above_90_returns_outside_coverage() {
    assert!(!covered(91.0, 0.0), "expected OutsideCoverage for lat=91");
}

#[test]
fn provider_lat_below_minus90_returns_outside_coverage() {
    assert!(!covered(-91.0, 0.0), "expected OutsideCoverage for lat=-91");
}

#[test]
fn provider_lat_61n_is_valid_copernicus_coverage() {
    assert!(covered(61.0, 0.0), "lat=61 is inside Copernicus coverage");
    let (lat, lon) = tile_of(61.0, 0.0);
    let cache = DemCache::with_dir("/tmp/dem".to_string());
    assert!(cache.missing_tile_message(lat, lon).contains("N61"));
}

#[test]
fn provider_lon_at_180_normalizes_to_w180_tile() {
    assert!(covered(0.0, 180.0));
    let (lat, lon) = tile_of(0.0, 180.0);
    let cache = DemCache::with_dir("/tmp/dem".to_string());
    let err = cache.missing_tile_message(lat, lon);
    assert!(err.contains("W180"), "error should name W180 tile: {err}");
}

#[test]
fn coverage_bounds_are_inclusive_and_finite() {
    assert!(covered(90.0, -180.0));
    assert!(covered(-90.0, 180.0));
    assert!(covered(-0.0, -0.0));
    assert!(!covered(0.0, 180.000001));
    assert!(!covered(0.0, f64::INFINITY));
    assert!(!covered(f64::NEG_INFINITY, 0.0));
    assert_eq!(normalize_antimeridian(180.0_f64.to_bits()), (-180.0_f64).to_bits());
    assert_eq!(normalize_antimeridian(179.5_f64.to_bits()), 179.5_f64.to_bits());
    assert_eq!(normalize_antimeridian((-180.0_f64).to_bits()), (-180.0_f64).to_bits());
}

/// A minimal little-endian TIFF header and IFD: one strip at the end of
/// the IFD holding `data`; `entries` are (tag, type, count, value).
fn tiff_with(entries: &[(u16, u16, u32, u32)], data: &[u8]) -> Vec<u8> {
    let mut buf: Vec<u8> = Vec::new();
    buf.extend_from_slice(b"II");
    buf.extend_from_slice(&42u16.to_le_bytes());
    buf.extend_from_slice(&8u32.to_le_bytes());
    buf.extend_from_slice(&(entries.len() as u16).to_le_bytes());
    for &(tag, typ, cnt, val) in entries {
        buf.extend_from_slice(&tag.to_le_bytes());
        buf.extend_from_slice(&typ.to_le_bytes());
        buf.extend_from_slice(&cnt.to_le_bytes());
        buf.extend_from_slice(&val.to_le_bytes());
    }
    buf.extend_from_slice(&0u32.to_le_bytes());
    buf.extend_from_slice(data);
    buf
}

fn data_offset(entries: u32) -> u32 {
    8 + 2 + entries * 12 + 4
}

fn make_flat_f32_tiff(value: f32, rows: u32, cols: u32) -> Vec<u8> {
    let pixel_count = (rows * cols) as usize;
    let mut data = Vec::new();
    for _ in 0..pixel_count {
        data.extend_from_slice(&value.to_le_bytes());
    }
    tiff_with(
        &[
            (256, 3, 1, cols),
            (257, 3, 1, rows),
            (258, 3, 1, 32),
            (259, 3, 1, 1),
            (262, 3, 1, 1),
            (273, 4, 1, data_offset(10)),
            (277, 3, 1, 1),
            (278, 3, 1, rows),
            (279, 4, 1, (pixel_count * 4) as u32),
            (339, 3, 1, 3),
        ],
        &data,
    )
}

#[test]
fn flat_tile_returns_correct_elevation() {
    let tile = tile_from_bytes(&make_flat_f32_tiff(300.0, 10, 10)).ok().expect("parse flat tile");
    assert_eq!(tile.dim_rows, 10);
    assert_eq!(tile.dim_cols, 10);
    assert_eq!(tile.elevation_bits.len(), 100);
    assert!(tile.elevation_bits.iter().all(|b| (f32::from_bits(*b) as f64 - 300.0).abs() < 1e-4));
}

#[test]
fn void_post_returns_none() {
    // A 2×2 tile whose south-east post is the void sentinel: the sample
    // reaches the tile unchanged (the void test is made on lookup).
    let elevations: Vec<f32> = vec![100.0, 100.0, 100.0, -32767.0];
    let mut data = Vec::new();
    for v in &elevations {
        data.extend_from_slice(&v.to_le_bytes());
    }
    let buf = tiff_with(
        &[
            (256, 3, 1, 2),
            (257, 3, 1, 2),
            (258, 3, 1, 32),
            (259, 3, 1, 1),
            (262, 3, 1, 1),
            (273, 4, 1, data_offset(10)),
            (277, 3, 1, 1),
            (278, 3, 1, 2),
            (279, 4, 1, 16),
            (339, 3, 1, 3),
        ],
        &data,
    );
    let tile = tile_from_bytes(&buf).ok().expect("parse tile with void");
    assert_eq!(tile.elevation_bits[3], (-32767.0f32).to_bits());
    assert!(f32::from_bits(tile.elevation_bits[1 * tile.dim_cols + 1]) <= -32767.0);
}

#[test]
fn deflate_floating_point_predictor_round_trip() {
    let rows: usize = 4;
    let cols: usize = 4;
    let value: f32 = 300.0;
    let n = rows * cols;
    let be_bytes = value.to_bits().to_be_bytes();
    // Per row: four byte planes, then horizontal differencing right to left.
    let mut encoded_bytes: Vec<u8> = Vec::with_capacity(n * 4);
    for _ in 0..rows {
        let mut row_bytes: Vec<u8> = Vec::with_capacity(cols * 4);
        for plane in 0..4usize {
            for _ in 0..cols {
                row_bytes.push(be_bytes[plane]);
            }
        }
        for k in (1..row_bytes.len()).rev() {
            row_bytes[k] = row_bytes[k].wrapping_sub(row_bytes[k - 1]);
        }
        encoded_bytes.extend_from_slice(&row_bytes);
    }
    let mut enc = flate2::write::ZlibEncoder::new(Vec::new(), flate2::Compression::default());
    std::io::Write::write_all(&mut enc, &encoded_bytes).expect("zlib write");
    let compressed = enc.finish().expect("zlib finish");
    let buf = tiff_with(
        &[
            (256, 3, 1, cols as u32),
            (257, 3, 1, rows as u32),
            (258, 3, 1, 32),
            (259, 3, 1, 8),
            (262, 3, 1, 1),
            (273, 4, 1, data_offset(11)),
            (277, 3, 1, 1),
            (278, 3, 1, rows as u32),
            (279, 4, 1, compressed.len() as u32),
            (317, 3, 1, 3),
            (339, 3, 1, 3),
        ],
        &compressed,
    );
    let tile = tile_from_bytes(&buf)
        .ok()
        .expect("DEFLATE + FloatingPoint predictor round-trip must succeed");
    assert_eq!(tile.elevation_bits.len(), n);
    for b in &tile.elevation_bits {
        assert!((f32::from_bits(*b) as f64 - value as f64).abs() < 1e-4);
    }
}

#[test]
fn wrong_sample_format_returns_parse_error() {
    let rows: u32 = 4;
    let cols: u32 = 4;
    let pixel_count = (rows * cols) as usize;
    let mut data = Vec::new();
    for _ in 0..pixel_count {
        data.extend_from_slice(&100u16.to_le_bytes());
    }
    let buf = tiff_with(
        &[
            (256, 3, 1, cols),
            (257, 3, 1, rows),
            (258, 3, 1, 16),
            (259, 3, 1, 1),
            (262, 3, 1, 1),
            (273, 4, 1, data_offset(10)),
            (277, 3, 1, 1),
            (278, 3, 1, rows),
            (279, 4, 1, (pixel_count * 2) as u32),
            (339, 3, 1, 1),
        ],
        &data,
    );
    match tile_from_bytes(&buf) {
        Err(m) => assert_eq!(m, "unexpected TIFF sample format: expected FLOAT32 (Copernicus GLO-30)"),
        Ok(_) => panic!("expected a parse error for a non-FLOAT32 TIFF"),
    }
}

#[test]
fn garbage_bytes_fail_at_decoder_init() {
    match tile_from_bytes(b"not a tiff") {
        Err(m) => assert!(m.starts_with("TIFF decoder init failed: ")),
        Ok(_) => panic!("expected a decoder error"),
    }
}

#[test]
fn decoded_tile_checks_its_sample_count() {
    match tile_from_decoded(Ok((2, 3, Some(vec![0u32; 5])))) {
        Err(m) => assert_eq!(m, "TIFF pixel count mismatch: header says 3×2=6, got 5 samples"),
        Ok(_) => panic!("expected a pixel count error"),
    }
    match tile_from_decoded(Err((2, "boom".to_string()))) {
        Err(m) => assert_eq!(m, "TIFF image read failed: boom"),
        Ok(_) => panic!("expected an image error"),
    }
    let t = tile_from_decoded(Ok((2, 3, Some(vec![7u32; 6])))).ok().unwrap();
    assert_eq!((t.dim_rows, t.dim_cols), (3, 2));
    assert_eq!(t.elevation_bits, vec![7u32; 6]);
}
