//! Import and export rules: KML boundary structure and the vertical-datum
//! requirements of the autopilot export formats.

pub mod kml;
pub mod qgc;
pub mod dji;
