use srtla_send::config::DynamicConfig;
use srtla_send::control::{
    dispatch, dispatch_line, parse_mode, wants_reply, Params, Reply, Request, RequestedMode,
    Response, INTERNAL_ERROR, INVALID_PARAMS, INVALID_REQUEST, METHOD_NOT_FOUND, PARSE_ERROR,
};
use srtla_send::mode::SchedulingMode;

/// Parses a line as the shell does.
fn parsed(line: &str) -> Result<Request, String> {
    let v: serde_json::Value = serde_json::from_str(line).map_err(|e| e.to_string())?;
    let params = &v["params"];
    Ok(Request {
        jsonrpc: v["jsonrpc"].as_str().unwrap_or("").to_string(),
        method: v["method"].as_str().unwrap_or("").to_string(),
        params: Params {
            mode: params["mode"].as_str().map(|s| s.to_string()),
            enabled: params["enabled"].as_bool(),
            delta_ms: params["delta_ms"].as_u64(),
            count: params["count"].as_u64(),
        },
        has_id: !v["id"].is_null(),
    })
}

fn error_code(r: &Response) -> i32 {
    match &r.outcome {
        Ok(_) => panic!("expected an error"),
        Err(e) => e.code,
    }
}

fn error_message(r: &Response) -> String {
    match &r.outcome {
        Ok(_) => panic!("expected an error"),
        Err(e) => e.message.clone(),
    }
}

#[test]
fn parse_error_returns_jsonrpc_error() {
    let mut config = DynamicConfig::new();
    let resp = dispatch(&mut config, false, parsed("not valid json")).unwrap();
    assert_eq!(error_code(&resp), PARSE_ERROR);
    assert!(!resp.with_id);
}

#[test]
fn notification_returns_none() {
    let mut config = DynamicConfig::new();
    let req = r#"{"jsonrpc":"2.0","method":"mark_critical","params":{"count":5}}"#;
    assert!(dispatch(&mut config, false, parsed(req)).is_none());
    assert_eq!(config.critical_hint_remaining(), 5);
}

#[test]
fn set_mode_happy_path() {
    let mut config = DynamicConfig::new();
    let req = r#"{"jsonrpc":"2.0","id":1,"method":"set_mode","params":{"mode":"classic"}}"#;
    let resp = dispatch(&mut config, false, parsed(req)).unwrap();
    assert!(matches!(&resp.outcome, Ok(Reply::Mode(m)) if m == "classic"));
    assert!(resp.with_id);
    assert_eq!(config.mode(), SchedulingMode::Classic);
}

#[test]
fn unknown_method_returns_method_not_found() {
    let mut config = DynamicConfig::new();
    let req = r#"{"jsonrpc":"2.0","id":"abc","method":"noop"}"#;
    let resp = dispatch(&mut config, false, parsed(req)).unwrap();
    assert_eq!(error_code(&resp), METHOD_NOT_FOUND);
    assert_eq!(error_message(&resp), "unknown method: noop");
    assert!(resp.with_id);
}

#[test]
fn invalid_params_returns_invalid_params() {
    let mut config = DynamicConfig::new();
    let req = r#"{"jsonrpc":"2.0","id":7,"method":"set_rtt_delta","params":{}}"#;
    let resp = dispatch(&mut config, false, parsed(req)).unwrap();
    assert_eq!(error_code(&resp), INVALID_PARAMS);
}

#[test]
fn wrong_jsonrpc_version_rejects() {
    let mut config = DynamicConfig::new();
    let req = r#"{"jsonrpc":"1.0","id":1,"method":"get_status"}"#;
    let resp = dispatch(&mut config, false, parsed(req)).unwrap();
    assert_eq!(error_code(&resp), INVALID_REQUEST);
}

#[test]
fn get_status_returns_all_fields() {
    let mut config = DynamicConfig::new();
    config.add_critical_hint(3);
    let req = r#"{"jsonrpc":"2.0","id":1,"method":"get_status"}"#;
    let resp = dispatch(&mut config, false, parsed(req)).unwrap();
    match resp.outcome {
        Ok(Reply::Status {
            mode,
            quality_enabled,
            exploration_enabled,
            rtt_delta_ms,
            critical_hints_total,
            critical_hint_remaining,
        }) => {
            assert_eq!(mode, "enhanced");
            assert!(quality_enabled);
            assert!(!exploration_enabled);
            assert_eq!(rtt_delta_ms, 30);
            assert_eq!(critical_hint_remaining, 3);
            assert_eq!(critical_hints_total, 1);
        }
        _ => panic!("expected a status"),
    }
}

#[test]
fn mark_critical_returns_remaining_when_called_with_id() {
    let mut config = DynamicConfig::new();
    let req = r#"{"jsonrpc":"2.0","id":9,"method":"mark_critical","params":{"count":4}}"#;
    let resp = dispatch(&mut config, false, parsed(req)).unwrap();
    assert!(matches!(resp.outcome, Ok(Reply::Remaining(4))));
}

#[test]
fn refused_requests_change_nothing() {
    let mut config = DynamicConfig::new();
    for (req, code) in [
        (r#"{"jsonrpc":"2.0","id":1,"method":"set_mode","params":{"mode":"fast"}}"#, INVALID_PARAMS),
        (r#"{"jsonrpc":"2.0","id":1,"method":"set_mode","params":{"mode":3}}"#, INVALID_PARAMS),
        (r#"{"jsonrpc":"2.0","id":1,"method":"set_quality","params":{"enabled":1}}"#, INVALID_PARAMS),
        (r#"{"jsonrpc":"2.0","id":1,"method":"set_exploration"}"#, INVALID_PARAMS),
        (
            r#"{"jsonrpc":"2.0","id":1,"method":"set_rtt_delta","params":{"delta_ms":4294967296}}"#,
            INVALID_PARAMS,
        ),
        (r#"{"jsonrpc":"2.0","id":1,"method":"mark_critical","params":{"count":-1}}"#, INVALID_PARAMS),
        (r#"{"jsonrpc":"2.0","id":1,"method":"get_stats"}"#, INTERNAL_ERROR),
        (r#"{"jsonrpc":"2.0","id":1,"method":"subscribe"}"#, METHOD_NOT_FOUND),
    ] {
        let resp = dispatch(&mut config, false, parsed(req)).unwrap();
        assert_eq!(error_code(&resp), code, "{req}");
        assert_eq!(config, DynamicConfig::new(), "{req}");
    }
}

#[test]
fn messages_are_exact() {
    let mut config = DynamicConfig::new();
    let mode = r#"{"jsonrpc":"2.0","id":1,"method":"set_mode","params":{"mode":"fast"}}"#;
    assert_eq!(
        error_message(&dispatch(&mut config, false, parsed(mode)).unwrap()),
        "unknown mode 'fast': use classic, enhanced, rtt-threshold, or edpf"
    );
    let sub = r#"{"jsonrpc":"2.0","id":1,"method":"unsubscribe"}"#;
    assert_eq!(
        error_message(&dispatch(&mut config, false, parsed(sub)).unwrap()),
        "unsubscribe is reserved for a future streaming protocol, not yet implemented"
    );
    let version = r#"{"jsonrpc":"1.0","id":1,"method":"get_status"}"#;
    assert_eq!(
        error_message(&dispatch(&mut config, false, parsed(version)).unwrap()),
        "jsonrpc version must be \"2.0\""
    );
}

#[test]
fn settings_are_switched() {
    let mut config = DynamicConfig::new();
    for req in [
        r#"{"jsonrpc":"2.0","id":1,"method":"set_quality","params":{"enabled":false}}"#,
        r#"{"jsonrpc":"2.0","id":1,"method":"set_exploration","params":{"enabled":true}}"#,
        r#"{"jsonrpc":"2.0","id":1,"method":"set_rtt_delta","params":{"delta_ms":55}}"#,
        r#"{"jsonrpc":"2.0","id":1,"method":"set_mode","params":{"mode":"edpf"}}"#,
    ] {
        assert!(dispatch(&mut config, false, parsed(req)).unwrap().outcome.is_ok());
    }
    let snap = config.snapshot();
    assert!(!snap.quality_enabled);
    assert!(snap.exploration_enabled);
    assert_eq!(snap.rtt_delta_ms, 55);
    assert!(config.edpf);
    let status = r#"{"jsonrpc":"2.0","id":1,"method":"get_status"}"#;
    let resp = dispatch(&mut config, false, parsed(status)).unwrap();
    assert!(matches!(resp.outcome, Ok(Reply::Status { mode, .. }) if mode == "edpf"));
    let stats = r#"{"jsonrpc":"2.0","id":1,"method":"get_stats"}"#;
    let resp = dispatch(&mut config, true, parsed(stats)).unwrap();
    assert!(matches!(resp.outcome, Ok(Reply::Stats)));
}

#[test]
fn wrong_version_without_id_gets_no_reply() {
    let mut config = DynamicConfig::new();
    let req = r#"{"jsonrpc":"1.0","method":"mark_critical","params":{"count":5}}"#;
    assert!(dispatch(&mut config, false, parsed(req)).is_none());
    assert_eq!(config.critical_hint_remaining(), 0);
}

#[test]
fn mode_names_are_told_apart() {
    for name in ["classic", "enhanced", "rtt-threshold", "edpf"] {
        match parse_mode(name) {
            Ok(mode) => assert_eq!(mode.to_text(), name),
            Err(_) => panic!("{name}"),
        }
    }
    assert!(matches!(parse_mode("edpf"), Ok(RequestedMode::Edpf)));
}

#[test]
fn blank_lines_get_no_reply() {
    let mut config = DynamicConfig::new();
    for line in ["", " ", "\t\r\n", "\u{3000}\u{a0}"] {
        assert!(!wants_reply(line), "{line:?}");
        assert!(dispatch_line(&mut config, false, line, parsed(line)).is_none());
    }
    assert_eq!(config, DynamicConfig::new());
    for line in ["x", "  {", "{}\n"] {
        assert!(wants_reply(line), "{line:?}");
    }
    let resp = dispatch_line(&mut config, false, " x ", parsed(" x ")).unwrap();
    assert_eq!(error_code(&resp), PARSE_ERROR);
}
