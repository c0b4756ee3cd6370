//! Shared vocabulary types.

use vstd::prelude::*;
use vstd::string::*;
use crate::chars::ascii;

verus! {

/// Vertical reference of an altitude value.
#[derive(Clone, Copy, Debug, PartialEq, Eq, Structural)]
pub enum AltitudeDatum {
    /// Orthometric height above the EGM2008 geoid (Copernicus DEM native).
    Egm2008,
    /// Orthometric height above the EGM96 geoid (DJI, NMEA GGA).
    Egm96,
    /// Height above the WGS84 ellipsoid (GNSS native, ArduPilot AMSL frame).
    Wgs84Ellipsoidal,
    /// Height above ground level.
    Agl,
}

/// Lower-case form of `s` as given by `str::to_lowercase` (Unicode case mapping).
pub uninterp spec fn lowercase(s: Seq<char>) -> Seq<char>;

/// A character with ASCII `A`–`Z` mapped to `a`–`z`.
pub open spec fn ascii_lower_char(c: char) -> char {
    if 'A' <= c && c <= 'Z' {
        ((c as u32) + 32) as char
    } else {
        c
    }
}

/// ASCII text with `A`–`Z` mapped to `a`–`z` and every other character kept.
pub open spec fn ascii_lower(s: Seq<char>) -> Seq<char> {
    s.map_values(|c: char| ascii_lower_char(c))
}

/// `str::to_lowercase`. The Unicode case tables are not restated: the
/// result is named by `lowercase`. On ASCII text the Unicode lower-case
/// mapping sends `A`–`Z` to `a`–`z` and keeps every other character, and
/// that is stated.
#[verifier::external_body]
pub(crate) fn to_lowercase(s: &str) -> (r: String)
    ensures
        r@ == lowercase(s@),
        ascii(s@) ==> r@ == ascii_lower(s@),
{
    s.to_lowercase()
}

/// The datum selected by a user-supplied name: `egm2008`, `egm96`,
/// `ellipsoidal` or `wgs84`, or `agl`, compared after lower-casing.
pub open spec fn datum_named(lower: Seq<char>) -> Option<AltitudeDatum> {
    if lower == "egm2008"@ {
        Some(AltitudeDatum::Egm2008)
    } else if lower == "egm96"@ {
        Some(AltitudeDatum::Egm96)
    } else if lower == "ellipsoidal"@ || lower == "wgs84"@ {
        Some(AltitudeDatum::Wgs84Ellipsoidal)
    } else if lower == "agl"@ {
        Some(AltitudeDatum::Agl)
    } else {
        None
    }
}

/// Whether two strings hold the same characters.
pub fn str_eq(a: &str, b: &str) -> (r: bool)
    ensures
        r == (a@ == b@),
{
    let n = a.unicode_len();
    if n != b.unicode_len() {
        return false;
    }
    let mut k: usize = 0;
    while k < n
        invariant
            k <= n,
            n == a@.len(),
            n == b@.len(),
            forall|j: int| 0 <= j < k ==> a@[j] == b@[j],
        decreases n - k,
    {
        if a.get_char(k) != b.get_char(k) {
            return false;
        }
        k = k + 1;
    }
    assert(a@ =~= b@);
    true
}

impl AltitudeDatum {
    /// Canonical lower-case name of the datum.
    pub open spec fn spec_name(self) -> Seq<char> {
        match self {
            AltitudeDatum::Egm2008 => "egm2008"@,
            AltitudeDatum::Egm96 => "egm96"@,
            AltitudeDatum::Wgs84Ellipsoidal => "ellipsoidal"@,
            AltitudeDatum::Agl => "agl"@,
        }
    }

    /// Canonical lower-case name of the datum.
    pub fn as_str(&self) -> (s: &'static str)
        ensures
            s@ == self.spec_name(),
    {
        match self {
            AltitudeDatum::Egm2008 => "egm2008",
            AltitudeDatum::Egm96 => "egm96",
            AltitudeDatum::Wgs84Ellipsoidal => "ellipsoidal",
            AltitudeDatum::Agl => "agl",
        }
    }

    /// Parse a user-supplied datum name, case-insensitively; `None` for an
    /// unknown name.
    pub fn parse_name(name: &str) -> (d: Option<AltitudeDatum>)
        ensures
            d == datum_named(lowercase(name@)),
            ascii(name@) ==> d == datum_named(ascii_lower(name@)),
    {
        let lower = to_lowercase(name);
        let l = lower.as_str();
        if str_eq(l, "egm2008") {
            Some(AltitudeDatum::Egm2008)
        } else if str_eq(l, "egm96") {
            Some(AltitudeDatum::Egm96)
        } else if str_eq(l, "ellipsoidal") || str_eq(l, "wgs84") {
            Some(AltitudeDatum::Wgs84Ellipsoidal)
        } else if str_eq(l, "agl") {
            Some(AltitudeDatum::Agl)
        } else {
            None
        }
    }
}

/// Whether a planning mode name selects a corridor survey (`corridor`,
/// compared after lower-casing); every other mode plans an area.
pub fn is_corridor_mode(mode: &str) -> (b: bool)
    ensures
        b == (lowercase(mode@) == "corridor"@),
        ascii(mode@) ==> b == (ascii_lower(mode@) == "corridor"@),
{
    let lower = to_lowercase(mode);
    str_eq(lower.as_str(), "corridor")
}

/// Parsing a datum's canonical name gives that datum back: the names are
/// ASCII and already lower-case, distinct datums have distinct names, and
/// each accepted spelling selects its own datum (`wgs84` is another name
/// of the ellipsoidal datum).
pub proof fn law_datum_name_round_trip(d: AltitudeDatum, e: AltitudeDatum)
    ensures
        ascii(d.spec_name()),
        ascii_lower(d.spec_name()) == d.spec_name(),
        datum_named(d.spec_name()) == Some(d),
        d != e ==> d.spec_name() != e.spec_name(),
        datum_named("egm2008"@) == Some(AltitudeDatum::Egm2008),
        datum_named("egm96"@) == Some(AltitudeDatum::Egm96),
        datum_named("ellipsoidal"@) == Some(AltitudeDatum::Wgs84Ellipsoidal),
        datum_named("wgs84"@) == Some(AltitudeDatum::Wgs84Ellipsoidal),
        datum_named("agl"@) == Some(AltitudeDatum::Agl),
{
    reveal_strlit("egm2008");
    reveal_strlit("egm96");
    reveal_strlit("ellipsoidal");
    reveal_strlit("wgs84");
    reveal_strlit("agl");
    assert(ascii_lower(d.spec_name()) =~= d.spec_name());
    assert("egm2008"@.len() == 7 && "egm96"@.len() == 5 && "ellipsoidal"@.len() == 11);
    assert("wgs84"@.len() == 5 && "agl"@.len() == 3);
    assert("wgs84"@[0] != "egm96"@[0]);
    if d != e {
        assert(d.spec_name().len() != e.spec_name().len() || d.spec_name()[3] != e.spec_name()[3]);
    }
}

} // verus!
