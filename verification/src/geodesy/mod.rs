//! Geodesy: the geoid models used for datum conversion.

pub mod geoid;
