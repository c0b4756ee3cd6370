//! Structured error responses of the REST API.
//!
//! Every error returned to clients carries an HTTP status, a
//! machine-readable `code` (such as `ERR_UNAUTHORIZED`) that the frontend
//! keys recovery flows on, and a human-readable `message`.

use vstd::prelude::*;
use vstd::string::*;
use crate::text::{decimal, push_decimal};

verus! {

/// JSON error payload returned by every failing REST endpoint.
pub struct ApiError {
    pub status: u16,
    pub code: String,
    pub message: String,
}

/// Typed server errors; each maps to one status and one code.
pub enum ServerError {
    NoMission,
    MissionNotFound(u64),
    LineNotFound(usize),
    BadRequest(String),
    PlanGeneration(String),
    ExportFailed(String),
    Internal(String),
    Unauthorized(String),
    /// SQLITE_BUSY is treated as fatal: the request is answered with 503
    /// rather than retried.
    DbLocked(String),
}

/// `prefix` followed by `detail`.
fn prefixed(prefix: &str, detail: &String) -> (m: String)
    ensures
        m@ == prefix@ + detail@,
{
    let mut m = prefix.to_owned();
    m.append(detail.as_str());
    m
}

impl ServerError {
    /// HTTP status code of the error.
    pub open spec fn spec_status(&self) -> u16 {
        match self {
            ServerError::NoMission => 404,
            ServerError::MissionNotFound(_) => 404,
            ServerError::LineNotFound(_) => 404,
            ServerError::BadRequest(_) => 400,
            ServerError::PlanGeneration(_) => 400,
            ServerError::ExportFailed(_) => 500,
            ServerError::Internal(_) => 500,
            ServerError::Unauthorized(_) => 401,
            ServerError::DbLocked(_) => 503,
        }
    }

    /// Machine-readable error code of the error.
    pub open spec fn spec_code(&self) -> Seq<char> {
        match self {
            ServerError::NoMission => "ERR_NO_MISSION"@,
            ServerError::MissionNotFound(_) => "ERR_MISSION_NOT_FOUND"@,
            ServerError::LineNotFound(_) => "ERR_LINE_NOT_FOUND"@,
            ServerError::BadRequest(_) => "ERR_INVALID_INPUT"@,
            ServerError::PlanGeneration(_) => "ERR_PLAN_GENERATION"@,
            ServerError::ExportFailed(_) => "ERR_EXPORT_FAILED"@,
            ServerError::Internal(_) => "ERR_INTERNAL"@,
            ServerError::Unauthorized(_) => "ERR_UNAUTHORIZED"@,
            ServerError::DbLocked(_) => "ERR_DB_LOCKED"@,
        }
    }

    /// Human-readable text of the error.
    pub open spec fn spec_message(&self) -> Seq<char> {
        match self {
            ServerError::NoMission => "no mission loaded"@,
            ServerError::MissionNotFound(id) => "mission not found: "@ + decimal(*id as nat),
            ServerError::LineNotFound(i) => "line index out of bounds: "@ + decimal(*i as nat),
            ServerError::BadRequest(s) => "invalid input: "@ + s@,
            ServerError::PlanGeneration(s) => "plan generation failed: "@ + s@,
            ServerError::ExportFailed(s) => "export failed: "@ + s@,
            ServerError::Internal(s) => "internal error: "@ + s@,
            ServerError::Unauthorized(s) => "unauthorized: "@ + s@,
            ServerError::DbLocked(s) => "database locked: "@ + s@,
        }
    }

    /// HTTP status code of the error.
    pub fn status(&self) -> (s: u16)
        ensures
            s == self.spec_status(),
    {
        match self {
            ServerError::NoMission => 404,
            ServerError::MissionNotFound(_) => 404,
            ServerError::LineNotFound(_) => 404,
            ServerError::BadRequest(_) => 400,
            ServerError::PlanGeneration(_) => 400,
            ServerError::ExportFailed(_) => 500,
            ServerError::Internal(_) => 500,
            ServerError::Unauthorized(_) => 401,
            ServerError::DbLocked(_) => 503,
        }
    }

    /// Machine-readable error code of the error.
    pub fn code(&self) -> (c: &'static str)
        ensures
            c@ == self.spec_code(),
    {
        match self {
            ServerError::NoMission => {
                proof { reveal_strlit("ERR_NO_MISSION"); }
                "ERR_NO_MISSION"
            },
            ServerError::MissionNotFound(_) => {
                proof { reveal_strlit("ERR_MISSION_NOT_FOUND"); }
                "ERR_MISSION_NOT_FOUND"
            },
            ServerError::LineNotFound(_) => {
                proof { reveal_strlit("ERR_LINE_NOT_FOUND"); }
                "ERR_LINE_NOT_FOUND"
            },
            ServerError::BadRequest(_) => {
                proof { reveal_strlit("ERR_INVALID_INPUT"); }
                "ERR_INVALID_INPUT"
            },
            ServerError::PlanGeneration(_) => {
                proof { reveal_strlit("ERR_PLAN_GENERATION"); }
                "ERR_PLAN_GENERATION"
            },
            ServerError::ExportFailed(_) => {
                proof { reveal_strlit("ERR_EXPORT_FAILED"); }
                "ERR_EXPORT_FAILED"
            },
            ServerError::Internal(_) => {
                proof { reveal_strlit("ERR_INTERNAL"); }
                "ERR_INTERNAL"
            },
            ServerError::Unauthorized(_) => {
                proof { reveal_strlit("ERR_UNAUTHORIZED"); }
                "ERR_UNAUTHORIZED"
            },
            ServerError::DbLocked(_) => {
                proof { reveal_strlit("ERR_DB_LOCKED"); }
                "ERR_DB_LOCKED"
            },
        }
    }

    /// Human-readable text of the error (what the error displays as).
    pub fn message(&self) -> (m: String)
        ensures
            m@ == self.spec_message(),
    {
        match self {
            ServerError::NoMission => {
                proof { reveal_strlit("no mission loaded"); }
                String::from_str("no mission loaded")
            },
            ServerError::MissionNotFound(id) => {
                proof { reveal_strlit("mission not found: "); }
                let mut m = String::from_str("mission not found: ");
                push_decimal(&mut m, *id);
                m
            },
            ServerError::LineNotFound(i) => {
                proof { reveal_strlit("line index out of bounds: "); }
                let mut m = String::from_str("line index out of bounds: ");
                push_decimal(&mut m, *i as u64);
                m
            },
            ServerError::BadRequest(s) => prefixed("invalid input: ", s),
            ServerError::PlanGeneration(s) => prefixed("plan generation failed: ", s),
            ServerError::ExportFailed(s) => prefixed("export failed: ", s),
            ServerError::Internal(s) => prefixed("internal error: ", s),
            ServerError::Unauthorized(s) => prefixed("unauthorized: ", s),
            ServerError::DbLocked(s) => prefixed("database locked: ", s),
        }
    }

    /// The JSON payload that answers a request failing with this error.
    pub fn to_api_error(&self) -> (e: ApiError)
        ensures
            e.status == self.spec_status(),
            e.code@ == self.spec_code(),
            e.message@ == self.spec_message(),
    {
        ApiError { status: self.status(), code: self.code().to_owned(), message: self.message() }
    }
}

} // verus!
