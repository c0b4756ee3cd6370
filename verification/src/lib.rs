//! IronTrack core library: tile naming for the Copernicus DEM cache,
//! GeoPackage binary geometry encoding and schema management, NMEA 0183
//! sentence handling, KML boundary import, the datum rules and documents
//! of the autopilot export formats, flight-line ordering, the replies of
//! the natural-language planner, and the decision logic of the
//! flight-management daemon.

pub mod text;
pub mod chars;
pub mod floatbits;
pub mod error;
pub mod types;
pub mod network;
pub mod dem;
pub mod legal;
pub mod gpkg;
pub mod io;
pub mod ai;
pub mod geodesy;
pub mod math;
