//! GeoPackage support: binary geometry encoding, database schema and the
//! R-tree spatial index.

pub mod binary;
pub mod init;
pub mod rtree;
