use irontrack::network::auth::{
    authorize_bearer, cors_origins, discover_local_ip, hex_token, mdns_address, mdns_choice,
    resolve_bearer_token, tokens_match, WsParams,
};
use irontrack::network::errors::{ApiError, ServerError};
use irontrack::network::serial_manager::{
    rtk_warning_code, rtk_warning_message, PortEntry, RtkMonitor, SerialManager,
    RTK_DEBOUNCE_EPOCHS,
};
use irontrack::network::server::{
    default_datum, default_mission_type, default_mode, default_sensor, is_busy_error, FmsState,
    LineStatus,
    MockCursor, MockStep, TriggerEvent, COMPLETE_PCT_BITS, TRIGGER_LOG_CAPACITY,
};

#[test]
fn server_error_display_includes_context() {
    let err = ServerError::MissionNotFound(42);
    assert!(err.message().contains("42"));
}

#[test]
fn db_locked_maps_to_503() {
    let err = ServerError::DbLocked("write contention".into());
    let api: ApiError = err.to_api_error();
    assert_eq!(api.status, axum::http::StatusCode::SERVICE_UNAVAILABLE.as_u16());
    assert_eq!(api.code, "ERR_DB_LOCKED");
    assert_eq!(api.message, "database locked: write contention");
}

#[test]
fn every_error_has_its_status_and_code() {
    let cases: Vec<(ServerError, u16, &str, &str)> = vec![
        (ServerError::NoMission, 404, "ERR_NO_MISSION", "no mission loaded"),
        (ServerError::MissionNotFound(7), 404, "ERR_MISSION_NOT_FOUND", "mission not found: 7"),
        (ServerError::LineNotFound(3), 404, "ERR_LINE_NOT_FOUND", "line index out of bounds: 3"),
        (ServerError::BadRequest("x".into()), 400, "ERR_INVALID_INPUT", "invalid input: x"),
        (
            ServerError::PlanGeneration("x".into()),
            400,
            "ERR_PLAN_GENERATION",
            "plan generation failed: x",
        ),
        (ServerError::ExportFailed("x".into()), 500, "ERR_EXPORT_FAILED", "export failed: x"),
        (ServerError::Internal("x".into()), 500, "ERR_INTERNAL", "internal error: x"),
        (ServerError::Unauthorized("x".into()), 401, "ERR_UNAUTHORIZED", "unauthorized: x"),
    ];
    for (e, status, code, message) in cases {
        assert_eq!(e.status(), status);
        assert_eq!(e.code(), code);
        assert_eq!(e.message(), message);
    }
}

fn unauthorized_detail(r: Result<(), ServerError>) -> Option<String> {
    match r {
        Err(ServerError::Unauthorized(d)) => Some(d),
        _ => None,
    }
}

#[test]
fn bearer_token_checks() {
    let token = "abc123";
    assert!(authorize_bearer(Some("Bearer abc123"), token).is_ok());
    assert_eq!(
        unauthorized_detail(authorize_bearer(Some("Bearer abc124"), token)).as_deref(),
        Some("invalid bearer token")
    );
    assert_eq!(
        unauthorized_detail(authorize_bearer(Some("Bearer abc1234"), token)).as_deref(),
        Some("invalid bearer token")
    );
    assert_eq!(
        unauthorized_detail(authorize_bearer(Some("Basic abc123"), token)).as_deref(),
        Some("missing Authorization header")
    );
    assert_eq!(
        unauthorized_detail(authorize_bearer(None, token)).as_deref(),
        Some("missing Authorization header")
    );
}

#[test]
fn websocket_token_checks() {
    let ok = WsParams { token: Some("s3cret".to_string()) };
    assert!(ok.authorize("s3cret").is_ok());
    let wrong = WsParams { token: Some("s3cre".to_string()) };
    assert_eq!(
        unauthorized_detail(wrong.authorize("s3cret")).as_deref(),
        Some("invalid WebSocket token")
    );
    let missing = WsParams { token: None };
    assert_eq!(
        unauthorized_detail(missing.authorize("s3cret")).as_deref(),
        Some("missing token query parameter")
    );
}

#[test]
fn tokens_compare_by_content() {
    assert!(tokens_match("é-token", "é-token"));
    assert!(!tokens_match("é-token", "e-token"));
    assert!(!tokens_match("", "x"));
}

#[test]
fn hex_rendering_of_bytes() {
    assert_eq!(hex_token(&[0x00, 0x0f, 0xa5, 0xff]), "000fa5ff");
}

#[test]
fn bearer_token_from_environment_or_random() {
    assert_eq!(resolve_bearer_token(Some("fixed".to_string())), "fixed");
    let t = resolve_bearer_token(Some(String::new()));
    assert_eq!(t.len(), 64);
    assert!(t.chars().all(|c| c.is_ascii_hexdigit() && !c.is_ascii_uppercase()));
    let u = resolve_bearer_token(None);
    assert_eq!(u.len(), 64);
    assert_ne!(t, u);
}

#[test]
fn cors_origins_defaults_then_extras_deduplicated() {
    let extra = vec![
        "https://ops.example.com".to_string(),
        "https://ops.example.com".to_string(),
        "bad\u{7f}origin".to_string(),
        "http://localhost:3000".to_string(),
    ];
    let o = cors_origins(8080, &extra);
    assert_eq!(
        o,
        vec![
            "http://localhost:8080",
            "http://127.0.0.1:8080",
            "http://localhost:3000",
            "http://localhost:5173",
            "http://127.0.0.1:3000",
            "http://127.0.0.1:5173",
            "https://ops.example.com",
            "http://localhost:3000",
        ]
    );
}

#[test]
fn mdns_address_fallbacks() {
    assert_eq!(mdns_address(Some("192.168.1.20".to_string())), "192.168.1.20");
    assert_eq!(mdns_address(Some("127.0.0.1".to_string())), "0.0.0.0");
    assert_eq!(mdns_address(Some("169.254.3.4".to_string())), "0.0.0.0");
    assert_eq!(mdns_address(None), "0.0.0.0");
}

#[test]
fn mdns_discover_local_ip_not_loopback() {
    let ip = discover_local_ip();
    assert!(!ip.starts_with("127."), "mDNS IP must not be loopback, got {ip}");
}

#[test]
fn request_defaults() {
    assert_eq!(default_sensor(), "phantom4pro");
    assert_eq!(default_mission_type(), "camera");
    assert_eq!(default_mode(), "area");
    assert_eq!(default_datum(), "egm2008");
}

fn event(i: usize) -> TriggerEvent {
    TriggerEvent {
        timestamp_ms: i as u64,
        line_index: 0,
        waypoint_index: i,
        lat_bits: 0,
        lon_bits: 0,
        alt_bits: 0,
    }
}

fn loaded(lines: usize) -> FmsState<u32> {
    let mut s: FmsState<u32> = FmsState::new();
    let id = s.load_mission((0..lines as u32).collect());
    assert_eq!(id, 1);
    s
}

#[test]
fn load_mission_assigns_ids_and_resets_statuses() {
    let mut s = loaded(3);
    assert_eq!(s.mission_id, Some(1));
    assert_eq!(s.last_status.line_statuses.len(), 3);
    assert!(s.last_status.line_statuses.iter().all(|l| !l.is_active && l.completion_pct_bits == 0));
    s.record_trigger(event(0));
    assert_eq!(s.load_mission(vec![9]), 2);
    assert_eq!(s.mission_id, Some(2));
    assert!(s.trigger_log.is_empty());
    assert!(s.mission_identity().is_ok());
    assert_eq!(s.mission_identity().ok(), Some((2, 1)));
}

#[test]
fn mission_id_validation() {
    let s = loaded(2);
    assert!(s.validate_mission_id(1).is_ok());
    assert!(matches!(s.validate_mission_id(2), Err(ServerError::MissionNotFound(2))));
    let empty: FmsState<u32> = FmsState::new();
    assert!(matches!(empty.mission_identity(), Err(ServerError::NoMission)));
}

#[test]
fn delete_line_adjusts_active_index() {
    // Deleting a line before the active one shifts the index down.
    let mut s = loaded(4);
    s.select_line(2);
    assert!(s.delete_line(1, 0).is_ok());
    assert_eq!(s.flight_lines.as_ref().unwrap(), &vec![1, 2, 3]);
    assert_eq!(s.last_status.active_line_index, Some(1));
    let flags: Vec<bool> = s.last_status.line_statuses.iter().map(|l| l.is_active).collect();
    assert_eq!(flags, vec![false, true, false]);

    // Deleting a line after the active one keeps it.
    assert!(s.delete_line(1, 2).is_ok());
    assert_eq!(s.last_status.active_line_index, Some(1));
    assert_eq!(s.flight_lines.as_ref().unwrap(), &vec![1, 2]);

    // Deleting the active line leaves no line active.
    assert!(s.delete_line(1, 1).is_ok());
    assert_eq!(s.last_status.active_line_index, None);
    assert!(s.last_status.line_statuses.iter().all(|l| !l.is_active));
    assert_eq!(s.flight_lines.as_ref().unwrap(), &vec![1]);
}

#[test]
fn delete_line_errors() {
    let mut s = loaded(2);
    assert!(matches!(s.delete_line(5, 0), Err(ServerError::MissionNotFound(5))));
    assert!(matches!(s.delete_line(1, 2), Err(ServerError::LineNotFound(2))));
    assert_eq!(s.flight_lines.as_ref().unwrap().len(), 2);
}

#[test]
fn update_line_replaces_one_status() {
    let mut s = loaded(2);
    let st = LineStatus { completion_pct_bits: 50.0f64.to_bits(), is_active: true };
    assert!(s.update_line(1, 1, st).is_ok());
    assert_eq!(s.last_status.line_statuses[1], st);
    assert!(matches!(s.update_line(1, 2, st), Err(ServerError::LineNotFound(2))));
    assert!(matches!(s.update_line(3, 0, st), Err(ServerError::MissionNotFound(3))));
}

#[test]
fn select_line_marks_only_that_line() {
    let mut s = loaded(3);
    s.select_line(1);
    let flags: Vec<bool> = s.last_status.line_statuses.iter().map(|l| l.is_active).collect();
    assert_eq!(flags, vec![false, true, false]);
    assert_eq!(s.last_status.active_line_index, Some(1));
}

#[test]
fn trigger_log_is_bounded_and_keeps_latest() {
    let mut s: FmsState<u32> = FmsState::new();
    for i in 0..(TRIGGER_LOG_CAPACITY + 5) {
        s.record_trigger(event(i));
    }
    assert_eq!(s.trigger_log.len(), TRIGGER_LOG_CAPACITY);
    assert_eq!(s.last_status.trigger_count as usize, TRIGGER_LOG_CAPACITY);
    assert_eq!(s.trigger_log.front().unwrap().waypoint_index, 5);
    assert_eq!(s.trigger_log.back().unwrap().waypoint_index, TRIGGER_LOG_CAPACITY + 4);
}

#[test]
fn mock_walk_visits_every_waypoint_then_wraps() {
    let lengths = vec![2usize, 0, 1];
    let mut c = MockCursor::new();
    let mut seen = Vec::new();
    for _ in 0..8 {
        seen.push(c.step(&lengths));
    }
    assert_eq!(
        seen,
        vec![
            MockStep::Emit { line_index: 0, waypoint_index: 0, finished_line: None },
            MockStep::Emit { line_index: 0, waypoint_index: 1, finished_line: None },
            MockStep::NextLine,
            MockStep::NextLine,
            MockStep::Emit { line_index: 2, waypoint_index: 0, finished_line: Some(0) },
            MockStep::NextLine,
            MockStep::Emit { line_index: 0, waypoint_index: 0, finished_line: Some(2) },
            MockStep::Emit { line_index: 0, waypoint_index: 1, finished_line: None },
        ]
    );
    let mut idle = MockCursor::new();
    assert_eq!(idle.step(&Vec::new()), MockStep::Idle);
}

#[test]
fn mock_progress_completes_left_line() {
    let mut s = loaded(2);
    s.apply_mock_progress(None, 0, 50.0f64.to_bits());
    assert_eq!(s.last_status.active_line_index, Some(0));
    s.apply_mock_progress(Some(0), 1, 0.0f64.to_bits());
    assert_eq!(
        s.last_status.line_statuses[0],
        LineStatus { completion_pct_bits: COMPLETE_PCT_BITS, is_active: false }
    );
    assert_eq!(f64::from_bits(COMPLETE_PCT_BITS), 100.0);
    assert!(s.last_status.line_statuses[1].is_active);
}

#[test]
fn find_port_picks_first_matching_usb_device() {
    let m = SerialManager::new(0x1546, 0x01a9, 115200);
    let ports = vec![
        PortEntry { port_name: "/dev/ttyS0".to_string(), usb_ids: None },
        PortEntry { port_name: "/dev/ttyUSB0".to_string(), usb_ids: Some((0x0403, 0x6001)) },
        PortEntry { port_name: "/dev/ttyACM0".to_string(), usb_ids: Some((0x1546, 0x01a9)) },
        PortEntry { port_name: "/dev/ttyACM1".to_string(), usb_ids: Some((0x1546, 0x01a9)) },
    ];
    assert_eq!(m.find_port(&ports).as_deref(), Some("/dev/ttyACM0"));
    let others = vec![
        PortEntry { port_name: "/dev/ttyS0".to_string(), usb_ids: None },
        PortEntry { port_name: "/dev/ttyUSB0".to_string(), usb_ids: Some((0x0403, 0x6001)) },
    ];
    assert_eq!(m.find_port(&others), None);
}

#[test]
fn rtk_warning_after_twenty_degraded_epochs() {
    let mut m = RtkMonitor::new();
    // RTK fixed, then degraded to DGPS.
    assert!(!m.observe(4, 4));
    let mut warnings = 0;
    let mut old = 4u8;
    for epoch in 1..=25u16 {
        let warn = m.observe(old, 2);
        old = 2;
        if warn {
            warnings += 1;
            assert_eq!(epoch, RTK_DEBOUNCE_EPOCHS);
        }
    }
    assert_eq!(warnings, 1);
    // Recovery resets the count.
    assert!(!m.observe(2, 4));
    assert_eq!(m.consecutive_degraded, 0);
}

#[test]
fn rtk_warning_text() {
    assert_eq!(rtk_warning_code(), "RTK_DEGRADATION");
    assert_eq!(
        rtk_warning_message(4, 1),
        "RTK fix quality degraded from 4 to 1 (sustained 20 epochs)"
    );
}

#[test]
fn busy_errors_are_recognised() {
    assert!(is_busy_error("database is locked"));
    assert!(is_busy_error("Error code 5: SQLITE_BUSY while writing"));
    assert!(!is_busy_error("no such table: flight_lines"));
    assert!(!is_busy_error(""));
}

#[test]
fn mdns_fallback_warnings() {
    assert_eq!(mdns_choice(Ok("10.0.0.7".to_string())), ("10.0.0.7".to_string(), None));
    assert_eq!(
        mdns_choice(Ok("127.0.0.1".to_string())),
        (
            "0.0.0.0".to_string(),
            Some("warning: local_ip() returned 127.0.0.1, falling back to 0.0.0.0 for mDNS".to_string())
        )
    );
    assert_eq!(
        mdns_choice(Err("no interface".to_string())),
        (
            "0.0.0.0".to_string(),
            Some("warning: could not discover local IP (no interface), falling back to 0.0.0.0 for mDNS".to_string())
        )
    );
}
