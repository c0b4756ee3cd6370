//! Error types of the library's I/O-facing modules.

use vstd::prelude::*;
use vstd::string::*;

verus! {

/// `std::io::Error`, carried opaquely inside the library's error types.
#[verifier::external_type_specification]
#[verifier::external_body]
pub struct ExIoError(std::io::Error);

/// `rusqlite::Error`, carried opaquely inside [`GpkgError`].
#[verifier::external_type_specification]
#[verifier::external_body]
pub struct ExSqliteError(rusqlite::Error);

/// Errors of the GeoPackage layer.
pub enum GpkgError {
    /// A database operation failed.
    Database(rusqlite::Error),
    /// Schema setup or an argument check failed.
    Init(String),
    /// Geometry serialisation failed.
    Serialization(String),
    /// A file operation failed.
    Io(std::io::Error),
}

/// Errors of the import/export layer.
pub enum IoError {
    /// A file operation failed.
    Io(std::io::Error),
    /// The content could not be parsed or produced.
    Serialization(String),
}

/// The `Display` text of a `rusqlite::Error`; nothing is stated of it.
#[verifier::external_body]
fn sqlite_error_text(e: &rusqlite::Error) -> (s: String) {
    e.to_string()
}

/// The `Display` text of a `std::io::Error`; nothing is stated of it.
#[verifier::external_body]
fn io_error_text(e: &std::io::Error) -> (s: String) {
    e.to_string()
}

/// `prefix` followed by `detail`.
fn joined(prefix: &str, detail: &str) -> (m: String)
    ensures
        m@ == prefix@ + detail@,
{
    let mut m = prefix.to_owned();
    m.append(detail);
    m
}

impl GpkgError {
    /// Human-readable text of the error (what it displays as).
    pub fn message(&self) -> (m: String)
        ensures
            self matches GpkgError::Init(d) ==> m@ == "GeoPackage initialisation failure: "@ + d@,
            self matches GpkgError::Serialization(d) ==> m@
                == "GeoPackage binary serialization error: "@ + d@,
            self is Database ==> exists|d: Seq<char>| m@ == "GeoPackage database error: "@ + d,
            self is Io ==> exists|d: Seq<char>| m@ == "GeoPackage I/O error: "@ + d,
    {
        match self {
            GpkgError::Database(e) => {
                let t = sqlite_error_text(e);
                joined("GeoPackage database error: ", t.as_str())
            },
            GpkgError::Init(d) => joined("GeoPackage initialisation failure: ", d.as_str()),
            GpkgError::Serialization(d) => joined("GeoPackage binary serialization error: ", d.as_str()),
            GpkgError::Io(e) => {
                let t = io_error_text(e);
                joined("GeoPackage I/O error: ", t.as_str())
            },
        }
    }
}

impl IoError {
    /// Human-readable text of the error (what it displays as).
    pub fn message(&self) -> (m: String)
        ensures
            self matches IoError::Serialization(d) ==> m@ == "serialization error: "@ + d@,
            self is Io ==> exists|d: Seq<char>| m@ == "I/O error: "@ + d,
    {
        match self {
            IoError::Io(e) => {
                let t = io_error_text(e);
                joined("I/O error: ", t.as_str())
            },
            IoError::Serialization(d) => joined("serialization error: ", d.as_str()),
        }
    }
}

} // verus!
