//! Copernicus attribution strings, the DSM safety warning text and the
//! licence disclaimer. Attribution is legally mandatory in any product
//! derived from the Copernicus DEM.

use vstd::prelude::*;
use vstd::string::*;
use crate::text::{decimal, push_decimal};

verus! {

/// Default acquisition year for Copernicus GLO-30 tiles (the 2021 global
/// product), used when the tile's own year is not known.
pub const COPERNICUS_DEFAULT_YEAR: u16 = 2021;

/// Disclaimer identifying the Copernicus DEM licence and access terms.
pub const COPERNICUS_DISCLAIMER: &'static str = "The Copernicus DEM is provided under the Copernicus Data Space Ecosystem License. See https://dataspace.copernicus.eu/terms-and-conditions";

/// Plain-text body of the DSM safety warning, without box drawing or ANSI codes.
pub const DSM_WARNING_TEXT: &'static str = "SAFETY WARNING: Copernicus DEM is a Digital Surface Model (DSM). Altitudes include canopy and structure tops. AGL clearance over forests may be UNDERESTIMATED by 2-8 m. Verify obstacle clearance manually before flight.";

/// The attribution sentence for data of year `year`:
/// `Contains modified Copernicus Sentinel data {year}, processed by ESA.`
pub open spec fn spec_attribution(year: nat) -> Seq<char> {
    "Contains modified Copernicus Sentinel data "@ + decimal(year) + ", processed by ESA."@
}

/// Build the resolved Copernicus attribution string for a given data year.
pub fn copernicus_attribution(year: u16) -> (s: String)
    ensures
        s@ == spec_attribution(year as nat),
{
    proof {
        reveal_strlit("Contains modified Copernicus Sentinel data ");
        reveal_strlit(", processed by ESA.");
    }
    let mut s = String::from_str("Contains modified Copernicus Sentinel data ");
    push_decimal(&mut s, year as u64);
    s.append(", processed by ESA.");
    assert(s@ =~= spec_attribution(year as nat));
    s
}

/// Attribution string using the default year (2021).
pub fn copernicus_attribution_default() -> (s: String)
    ensures
        s@ == spec_attribution(2021),
{
    copernicus_attribution(COPERNICUS_DEFAULT_YEAR)
}

} // verus!
