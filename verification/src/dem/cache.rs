//! Copernicus DEM tile naming, the cache-directory layout, and the
//! coordinates the DEM is queried for.
//!
//! Tiles are FLOAT32 Cloud Optimized GeoTIFFs named after the integer
//! south-west corner of their 1°×1° cell. [`DemCache`] knows where a tile
//! lives on disk and whether a missing tile may be fetched from the public
//! Copernicus bucket; reading and downloading the files is left to the
//! caller.

use vstd::prelude::*;
use vstd::string::*;
use crate::text::{zero_padded, push_zero_padded};
use crate::floatbits::magnitude;
use crate::geodesy::geoid::NINETY_DEG_BITS;

verus! {

/// Absolute value of an `i32` as a natural number.
pub open spec fn abs_nat(v: i32) -> nat {
    if v < 0 {
        (-(v as int)) as nat
    } else {
        v as nat
    }
}

/// `Copernicus_DSM_COG_10_{N|S}{|lat|:02}_00_{E|W}{|lon|:03}_00_DEM`
pub open spec fn spec_copernicus_stem(lat: i32, lon: i32) -> Seq<char> {
    "Copernicus_DSM_COG_10_"@
        + seq![if lat >= 0 { 'N' } else { 'S' }]
        + zero_padded(abs_nat(lat), 2)
        + "_00_"@
        + seq![if lon >= 0 { 'E' } else { 'W' }]
        + zero_padded(abs_nat(lon), 3)
        + "_00_DEM"@
}

/// S3 object URL of a tile: `https://copernicus-dem-30m.s3.amazonaws.com/{STEM}/{STEM}.tif`.
pub open spec fn spec_copernicus_url(lat: i32, lon: i32) -> Seq<char> {
    "https://copernicus-dem-30m.s3.amazonaws.com/"@ + spec_copernicus_stem(lat, lon) + "/"@
        + spec_copernicus_stem(lat, lon) + ".tif"@
}

/// Local file name of a tile: the stem plus `.tif`.
pub open spec fn spec_tile_filename(lat: i32, lon: i32) -> Seq<char> {
    spec_copernicus_stem(lat, lon) + ".tif"@
}

/// Name of the path obtained by adjoining `file` to directory `dir`
/// with the platform path separator.
pub uninterp spec fn path_join(dir: Seq<char>, file: Seq<char>) -> Seq<char>;

/// Joins `file` onto the directory `dir` with `std::path::Path::join`.
/// The result is named by `path_join` of the two texts; the separator
/// rules of the platform are not restated here.
#[verifier::external_body]
fn join_path(dir: &str, file: &str) -> (res: String)
    ensures
        res@ == path_join(dir@, file@),
{
    std::path::Path::new(dir).join(file).to_string_lossy().into_owned()
}

fn unsigned_abs(v: i32) -> (r: u64)
    ensures
        r as nat == abs_nat(v),
{
    if v < 0 {
        (0i64 - v as i64) as u64
    } else {
        v as u64
    }
}

/// Build the Copernicus directory/filename stem for the tile whose SW corner
/// is at `(lat, lon)` in integer degrees.
fn copernicus_stem(lat: i32, lon: i32) -> (s: String)
    ensures
        s@ == spec_copernicus_stem(lat, lon),
{
    proof {
        reveal_strlit("Copernicus_DSM_COG_10_");
        reveal_strlit("N");
        reveal_strlit("S");
        reveal_strlit("E");
        reveal_strlit("W");
        reveal_strlit("_00_");
        reveal_strlit("_00_DEM");
    }
    let mut s = String::from_str("Copernicus_DSM_COG_10_");
    if lat >= 0 {
        s.append("N");
    } else {
        s.append("S");
    }
    push_zero_padded(&mut s, unsigned_abs(lat), 2);
    s.append("_00_");
    if lon >= 0 {
        s.append("E");
    } else {
        s.append("W");
    }
    push_zero_padded(&mut s, unsigned_abs(lon), 3);
    s.append("_00_DEM");
    assert(s@ =~= spec_copernicus_stem(lat, lon));
    s
}

/// Build the full S3 download URL for the tile at `(lat, lon)`.
pub fn copernicus_url(lat: i32, lon: i32) -> (url: String)
    ensures
        url@ == spec_copernicus_url(lat, lon),
{
    let stem = copernicus_stem(lat, lon);
    proof {
        reveal_strlit("https://copernicus-dem-30m.s3.amazonaws.com/");
        reveal_strlit("/");
        reveal_strlit(".tif");
    }
    let mut url = String::from_str("https://copernicus-dem-30m.s3.amazonaws.com/");
    url.append(stem.as_str());
    url.append("/");
    url.append(stem.as_str());
    url.append(".tif");
    assert(url@ =~= spec_copernicus_url(lat, lon));
    url
}

/// Produce the `.tif` filename for the tile whose SW corner is at `(lat, lon)`.
pub fn tile_filename(lat: i32, lon: i32) -> (name: String)
    ensures
        name@ == spec_tile_filename(lat, lon),
{
    let mut name = copernicus_stem(lat, lon);
    proof { reveal_strlit(".tif"); }
    name.append(".tif");
    name
}

/// Location of the Copernicus DEM tile cache.
///
/// When `download_missing` is set, a tile absent from the directory may be
/// fetched from the Copernicus S3 bucket; otherwise a missing tile is
/// reported to the caller with its download URL.
pub struct DemCache {
    cache_dir: String,
    download_missing: bool,
}

impl DemCache {
    /// The cache directory as text.
    pub closed spec fn dir(&self) -> Seq<char> {
        self.cache_dir@
    }

    /// Whether missing tiles are downloaded.
    pub closed spec fn downloads(&self) -> bool {
        self.download_missing
    }

    /// A cache rooted at `cache_dir` with automatic download **disabled**.
    /// The directory itself is created by the caller.
    pub fn with_dir(cache_dir: String) -> (c: Self)
        ensures
            c.dir() == cache_dir@,
            !c.downloads(),
    {
        DemCache { cache_dir, download_missing: false }
    }

    /// A cache rooted at `cache_dir` with automatic download enabled.
    /// The directory itself is created by the caller.
    pub fn downloading(cache_dir: String) -> (c: Self)
        ensures
            c.dir() == cache_dir@,
            c.downloads(),
    {
        DemCache { cache_dir, download_missing: true }
    }

    /// Return the full path at which the tile for `(lat, lon)` should reside.
    pub fn tile_path(&self, lat: i32, lon: i32) -> (p: String)
        ensures
            p@ == path_join(self.dir(), spec_tile_filename(lat, lon)),
    {
        let name = tile_filename(lat, lon);
        join_path(self.cache_dir.as_str(), name.as_str())
    }

    /// Return the cache directory path.
    pub fn cache_dir(&self) -> (d: &str)
        ensures
            d@ == self.dir(),
    {
        self.cache_dir.as_str()
    }

    /// Whether a missing tile is to be downloaded.
    pub fn download_missing(&self) -> (b: bool)
        ensures
            b == self.downloads(),
    {
        self.download_missing
    }

    /// Message of the "tile not found" error given when the tile for
    /// `(lat, lon)` is absent and download is disabled.
    pub fn missing_tile_message(&self, lat: i32, lon: i32) -> (m: String)
        ensures
            m@ == "Tile "@ + spec_tile_filename(lat, lon) + " not in cache.\nDownload: "@
                + spec_copernicus_url(lat, lon) + "\nPlace the .tif file in: "@ + self.dir(),
    {
        let name = tile_filename(lat, lon);
        let url = copernicus_url(lat, lon);
        proof {
            reveal_strlit("Tile ");
            reveal_strlit(" not in cache.\nDownload: ");
            reveal_strlit("\nPlace the .tif file in: ");
        }
        let mut m = String::from_str("Tile ");
        m.append(name.as_str());
        m.append(" not in cache.\nDownload: ");
        m.append(url.as_str());
        m.append("\nPlace the .tif file in: ");
        m.append(self.cache_dir.as_str());
        assert(m@ =~= "Tile "@ + spec_tile_filename(lat, lon) + " not in cache.\nDownload: "@
            + spec_copernicus_url(lat, lon) + "\nPlace the .tif file in: "@ + self.dir());
        m
    }
}

/// Bit pattern of the `f64` value `180.0`.
pub const ONE_EIGHTY_DEG_BITS: u64 = 0x4066_8000_0000_0000;

/// Bit pattern of the `f64` value `-180.0`.
pub const MINUS_ONE_EIGHTY_DEG_BITS: u64 = 0xC066_8000_0000_0000;

/// Whether a WGS84 coordinate (as `f64` bit patterns) lies where the DEM
/// is queried: both values finite, |latitude| ≤ 90° and |longitude| ≤ 180°.
/// The magnitude bits of a finite value grow with its absolute value, and
/// those of NaN and the infinities exceed every finite one.
pub open spec fn spec_coverage_ok(lat_bits: u64, lon_bits: u64) -> bool {
    magnitude(lat_bits) <= NINETY_DEG_BITS && magnitude(lon_bits) <= ONE_EIGHTY_DEG_BITS
}

/// Check a coordinate before a DEM query; anything else is outside
/// coverage.
pub fn coverage_ok(lat_bits: u64, lon_bits: u64) -> (r: bool)
    ensures
        r == spec_coverage_ok(lat_bits, lon_bits),
{
    let sign_bit: u64 = 0x8000_0000_0000_0000;
    lat_bits % sign_bit <= NINETY_DEG_BITS && lon_bits % sign_bit <= ONE_EIGHTY_DEG_BITS
}

/// The longitude used to pick a tile: 180°E is the same meridian as
/// 180°W, whose tile is `W180`; every other value is kept.
pub fn normalize_antimeridian(lon_bits: u64) -> (r: u64)
    ensures
        r == (if lon_bits == ONE_EIGHTY_DEG_BITS { MINUS_ONE_EIGHTY_DEG_BITS } else { lon_bits }),
{
    if lon_bits == ONE_EIGHTY_DEG_BITS {
        MINUS_ONE_EIGHTY_DEG_BITS
    } else {
        lon_bits
    }
}

} // verus!
