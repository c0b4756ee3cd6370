//! Copernicus DEM GLO-30 tile geometry.
//!
//! Rows are always 3600; the column count narrows with latitude so that
//! tiles keep an approximately equal width on the ground.
//!
//! A tile file is a FLOAT32 GeoTIFF; [`tile_from_bytes`] decodes one with
//! the `tiff` crate and keeps its samples as IEEE-754 bit patterns.

use vstd::prelude::*;
use vstd::string::*;
use crate::text::{decimal, push_decimal};
use tiff::decoder::{Decoder, DecodingResult};

verus! {

/// Column count of a GLO-30 tile by absolute latitude band.
pub open spec fn spec_col_count(abs_lat: int) -> int {
    if abs_lat <= 49 {
        3600
    } else if abs_lat <= 59 {
        2400
    } else if abs_lat <= 69 {
        1800
    } else if abs_lat <= 79 {
        1200
    } else if abs_lat <= 84 {
        720
    } else {
        360
    }
}

/// Absolute value of an integer latitude.
pub open spec fn abs_int(v: int) -> int {
    if v < 0 {
        -v
    } else {
        v
    }
}

/// Return the expected column count for a Copernicus GLO-30 tile whose
/// SW corner is at integer latitude `tile_lat`. Latitudes at or beyond 90°
/// (where no tile exists) give the smallest band, 360.
pub fn col_count_for_lat(tile_lat: i32) -> (cols: usize)
    ensures
        cols == spec_col_count(abs_int(tile_lat as int)),
{
    let a: u32 = if tile_lat < 0 {
        if tile_lat == i32::MIN {
            2147483648u32
        } else {
            (-tile_lat) as u32
        }
    } else {
        tile_lat as u32
    };
    if a <= 49 {
        3600
    } else if a <= 59 {
        2400
    } else if a <= 69 {
        1800
    } else if a <= 79 {
        1200
    } else if a <= 84 {
        720
    } else {
        360
    }
}

/// Southern-hemisphere tiles mirror northern ones: the column count of
/// the tile at latitude `-lat` is that of the tile at `lat`.
pub proof fn law_col_count_symmetric(lat: int)
    ensures
        spec_col_count(abs_int(-lat)) == spec_col_count(abs_int(lat)),
{
}

/// The column count never grows towards the poles.
pub proof fn law_col_count_monotone(a: int, b: int)
    requires
        0 <= a <= b,
    ensures
        spec_col_count(b) <= spec_col_count(a),
{
}

// ---------------------------------------------------------------------------
// Decoding a tile file
// ---------------------------------------------------------------------------

/// What `tiff`'s `Decoder` reads from a file's bytes: the width, the height
/// and, when the samples are FLOAT32, their bit patterns in row-major order
/// (`None` for any other sample format); or the stage that failed (0:
/// opening the decoder, 1: the dimensions, 2: the image) and the error's
/// text.
pub uninterp spec fn tiff_read(bytes: Seq<u8>) -> Result<(u32, u32, Option<Seq<u32>>), (u8, Seq<char>)>;

/// A decoding outcome, by views.
pub open spec fn tiff_view(r: Result<(u32, u32, Option<Vec<u32>>), (u8, String)>) -> Result<
    (u32, u32, Option<Seq<u32>>),
    (u8, Seq<char>),
> {
    match r {
        Ok((w, h, Some(v))) => Ok((w, h, Some(v@))),
        Ok((w, h, None)) => Ok((w, h, None)),
        Err((k, t)) => Err((k, t@)),
    }
}

/// Decode a TIFF held in memory with `tiff::decoder::Decoder`: `new`,
/// `dimensions` and `read_image`, each error converted with its stage and
/// its text; FLOAT32 samples are converted to their bit patterns.
#[verifier::external_body]
fn tiff_decode(bytes: &[u8]) -> (r: Result<(u32, u32, Option<Vec<u32>>), (u8, String)>)
    ensures
        tiff_view(r) == tiff_read(bytes@),
{
    let mut d = match Decoder::new(std::io::Cursor::new(bytes)) {
        Ok(d) => d,
        Err(e) => return Err((0, e.to_string())),
    };
    let (w, h) = match d.dimensions() {
        Ok(x) => x,
        Err(e) => return Err((1, e.to_string())),
    };
    match d.read_image() {
        Ok(DecodingResult::F32(v)) => Ok((w, h, Some(v.iter().map(|x| x.to_bits()).collect()))),
        Ok(_) => Ok((w, h, None)),
        Err(e) => Err((2, e.to_string())),
    }
}

/// A decoded tile: `dim_rows × dim_cols` FLOAT32 elevations (metres above
/// EGM2008) as bit patterns, row-major, north to south, west to east.
pub struct TileGrid {
    pub elevation_bits: Vec<u32>,
    pub dim_rows: usize,
    pub dim_cols: usize,
}

/// The message of a decoder failure at `stage`.
pub open spec fn decode_error_text(stage: u8, t: Seq<char>) -> Seq<char> {
    if stage == 0 {
        "TIFF decoder init failed: "@ + t
    } else if stage == 1 {
        "TIFF dimensions query failed: "@ + t
    } else {
        "TIFF image read failed: "@ + t
    }
}

/// The message for samples that are not FLOAT32.
pub open spec fn wrong_format_text() -> Seq<char> {
    "unexpected TIFF sample format: expected FLOAT32 (Copernicus GLO-30)"@
}

/// The message for a sample count other than rows × columns.
pub open spec fn pixel_count_text(rows: nat, cols: nat, got: nat) -> Seq<char> {
    "TIFF pixel count mismatch: header says "@ + decimal(rows) + "×"@ + decimal(cols) + "="@
        + decimal(rows * cols) + ", got "@ + decimal(got) + " samples"@
}

/// `r` is what a tile file decoded as `d` gives: the grid when the samples
/// are FLOAT32 and number height × width, else the failure's message.
pub open spec fn tile_result_is(
    r: Result<TileGrid, String>,
    d: Result<(u32, u32, Option<Seq<u32>>), (u8, Seq<char>)>,
) -> bool {
    match d {
        Err((k, t)) => r matches Err(m) && m@ == decode_error_text(k, t),
        Ok((_w, _h, None)) => r matches Err(m) && m@ == wrong_format_text(),
        Ok((w, h, Some(s))) => if s.len() == h * w {
            r matches Ok(g) && g.dim_rows == h && g.dim_cols == w && g.elevation_bits@ == s
        } else {
            r matches Err(m) && m@ == pixel_count_text(h as nat, w as nat, s.len())
        },
    }
}

/// The tile of a decoding outcome: samples other than FLOAT32 are refused,
/// and so is a sample count other than height × width.
pub fn tile_from_decoded(d: Result<(u32, u32, Option<Vec<u32>>), (u8, String)>) -> (r: Result<
    TileGrid,
    String,
>)
    ensures
        tile_result_is(r, tiff_view(d)),
{
    match d {
        Err((k, t)) => {
            let mut m = if k == 0 {
                String::from_str("TIFF decoder init failed: ")
            } else if k == 1 {
                String::from_str("TIFF dimensions query failed: ")
            } else {
                String::from_str("TIFF image read failed: ")
            };
            m.append(t.as_str());
            Err(m)
        },
        Ok((_w, _h, None)) => Err(
            String::from_str("unexpected TIFF sample format: expected FLOAT32 (Copernicus GLO-30)"),
        ),
        Ok((w, h, Some(v))) => {
            let rows: u64 = h as u64;
            let cols: u64 = w as u64;
            assert(rows * cols <= 0xffff_ffffu64 * 0xffff_ffffu64) by (nonlinear_arith)
                requires
                    rows <= 0xffff_ffffu64,
                    cols <= 0xffff_ffffu64,
            ;
            let count: u64 = rows * cols;
            if v.len() as u64 != count {
                let mut m = String::from_str("TIFF pixel count mismatch: header says ");
                push_decimal(&mut m, rows);
                m.append("×");
                push_decimal(&mut m, cols);
                m.append("=");
                push_decimal(&mut m, count);
                m.append(", got ");
                push_decimal(&mut m, v.len() as u64);
                m.append(" samples");
                Err(m)
            } else {
                Ok(TileGrid { elevation_bits: v, dim_rows: h as usize, dim_cols: w as usize })
            }
        },
    }
}

/// Decode a Copernicus tile file held in memory (see [`tiff_read`] and
/// [`tile_from_decoded`]).
pub fn tile_from_bytes(bytes: &[u8]) -> (r: Result<TileGrid, String>)
    ensures
        tile_result_is(r, tiff_read(bytes@)),
{
    tile_from_decoded(tiff_decode(bytes))
}

} // verus!
