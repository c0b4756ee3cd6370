//! Flight-management daemon logic: NMEA 0183 telemetry, REST error
//! mapping, authentication, mission state transitions and the serial GNSS
//! link watchdog.

pub mod nmea;
pub mod errors;
pub mod auth;
pub mod server;
pub mod serial_manager;
