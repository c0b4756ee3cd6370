//! Geoid models (EGM96 and EGM2008) and the domain of coordinates they
//! accept. The spherical-harmonic and grid evaluations themselves are done
//! in floating point by the geoid crates, outside the library.

use vstd::prelude::*;
use crate::floatbits::{magnitude, F64_INFINITY_BITS};

verus! {

/// Bit pattern of the `f64` value `90.0`.
pub const NINETY_DEG_BITS: u64 = 0x4056_8000_0000_0000;

/// Whether a coordinate (given as `f64` bit patterns) is one the geoid
/// models evaluate: both values finite and the latitude within ±90°.
pub open spec fn spec_geoid_input_ok(lat_bits: u64, lon_bits: u64) -> bool {
    magnitude(lat_bits) < F64_INFINITY_BITS && magnitude(lon_bits) < F64_INFINITY_BITS
        && magnitude(lat_bits) <= NINETY_DEG_BITS
}

/// Check a coordinate before a geoid lookup; an out-of-bounds or
/// non-finite coordinate is refused.
pub fn geoid_input_ok(lat_bits: u64, lon_bits: u64) -> (r: bool)
    ensures
        r == spec_geoid_input_ok(lat_bits, lon_bits),
{
    let sign_bit: u64 = 0x8000_0000_0000_0000;
    let mlat = lat_bits % sign_bit;
    let mlon = lon_bits % sign_bit;
    mlat < F64_INFINITY_BITS && mlon < F64_INFINITY_BITS && mlat <= NINETY_DEG_BITS
}

/// The EGM96 geoid model (spherical-harmonic evaluation, about 1 m RMS).
/// No files are loaded: the coefficients are embedded in the model crate.
pub struct GeoidModel;

impl GeoidModel {
    /// Construct the EGM96 model.
    pub fn new() -> (m: Self)
        ensures
            m == GeoidModel,
    {
        GeoidModel
    }
}

impl Default for GeoidModel {
    fn default() -> (m: Self)
        ensures
            m == GeoidModel,
    {
        GeoidModel::new()
    }
}

/// The EGM2008 geoid model (about 0.5 m RMS), the model native to the
/// Copernicus DEM. No external data files are loaded.
pub struct Egm2008Model;

impl Egm2008Model {
    /// Construct the EGM2008 model.
    pub fn new() -> (m: Self)
        ensures
            m == Egm2008Model,
    {
        Egm2008Model
    }
}

impl Default for Egm2008Model {
    fn default() -> (m: Self)
        ensures
            m == Egm2008Model,
    {
        Egm2008Model::new()
    }
}

} // verus!
