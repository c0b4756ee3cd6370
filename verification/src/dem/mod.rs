//! Copernicus GLO-30 digital elevation model: tile naming, cache layout,
//! the coordinates it is queried for, and tile geometry tables.

pub mod cache;
pub mod copernicus;
