use aether::model::{AgentAction, DiagSeverity};
use aether::palette::{parse_hex_color, theme_from_colors, Palette, RenderError, Rgb, Theme, ThemeColors};
use aether::web::api::{
    compute_diagnostic_stats, connections_of, default_duration, format_action,
    recommended_to_agent_action, diagnostic_to_response, ConnectionResponse, DiagnosticFilter, DiagnosticRecord,
    RecommendedAction,
};
use aether::tui::diagnostics::DiagTarget;
use aether::web::embedded::content_type;
use aether::web::error::WebError;
use aether::web::metrics::MetricStore;
use aether::web::ws::{arbiter_command, parse_usize, world_update, ArbiterCommand, CommandError, WorldEdge, WorldProcess};
use aether::model::ProcessState;
use aether::tui::network::Protocol;

#[test]
fn test_content_type_js() {
    assert_eq!(content_type("app.js"), "application/javascript");
}

#[test]
fn test_content_type_css() {
    assert_eq!(content_type("style.css"), "text/css");
}

#[test]
fn test_content_type_html() {
    assert_eq!(content_type("index.html"), "text/html; charset=utf-8");
}

#[test]
fn test_content_type_wasm() {
    assert_eq!(content_type("module.wasm"), "application/wasm");
}

#[test]
fn test_content_type_unknown() {
    assert_eq!(content_type("file.xyz"), "application/octet-stream");
}

#[test]
fn content_type_uses_last_extension() {
    assert_eq!(content_type("assets/app.min.js"), "application/javascript");
    assert_eq!(content_type("json"), "application/json");
    assert_eq!(content_type("archive.tar.gz"), "application/octet-stream");
    assert_eq!(content_type("favicon.ico"), "image/x-icon");
    assert_eq!(content_type("a."), "application/octet-stream");
}

#[test]
fn web_error_status_and_message() {
    assert_eq!(WebError::Internal.status_code(), 500);
    assert_eq!(WebError::NotFound("pid 7".into()).status_code(), 404);
    assert_eq!(WebError::BadRequest("x".into()).status_code(), 400);
    assert_eq!(WebError::NotFound("pid 7".into()).to_string(), "not found: pid 7");
    assert_eq!(WebError::Internal.to_string(), "internal server error");
}

#[test]
fn diagnostic_stats_counts() {
    let s = compute_diagnostic_stats(&[DiagSeverity::Critical, DiagSeverity::Info, DiagSeverity::Info]);
    assert_eq!((s.critical, s.warning, s.info, s.total), (1, 0, 2, 3));
    assert_eq!(default_duration(), 300);
}

#[test]
fn api_action_names_and_recommendations() {
    assert_eq!(format_action(&AgentAction::KillProcess { pid: 12 }), "kill_process(12)");
    assert_eq!(format_action(&AgentAction::RestartService { name: "db".into() }), "restart_service(db)");
    assert_eq!(
        recommended_to_agent_action(&RecommendedAction::Investigate { what: "cpu".into() }),
        Some(AgentAction::CustomScript { command: "investigate: cpu".into() })
    );
    assert_eq!(recommended_to_agent_action(&RecommendedAction::NoAction { reason: "ok".into() }), None);
}

#[test]
fn connections_of_process() {
    let conns = vec![
        ConnectionResponse { from_pid: 1, to_pid: 2, protocol: "TCP".into(), bytes_per_sec: 5 },
        ConnectionResponse { from_pid: 3, to_pid: 4, protocol: "UDP".into(), bytes_per_sec: 6 },
        ConnectionResponse { from_pid: 4, to_pid: 1, protocol: "TCP".into(), bytes_per_sec: 7 },
    ];
    let mine = connections_of(1, &conns);
    assert_eq!(mine.len(), 2);
    assert_eq!(mine[0].to_pid, 2);
    assert_eq!(mine[1].bytes_per_sec, 7);
}

#[test]
fn diagnostic_filter_matches_severity_and_host() {
    let f = DiagnosticFilter { severity: Some("CRITICAL".into()), host: Some("web-1".into()) };
    assert!(f.accepts(DiagSeverity::Critical, "web-1"));
    assert!(!f.accepts(DiagSeverity::Warning, "web-1"));
    assert!(!f.accepts(DiagSeverity::Critical, "web-2"));
    let none = DiagnosticFilter { severity: None, host: None };
    assert!(none.accepts(DiagSeverity::Info, "any"));
}

#[test]
fn test_metric_store_push_and_history() {
    let mut store = MetricStore::new(100);
    store.push("cpu", 1000, 50.0);
    store.push("cpu", 2000, 60.0);
    store.push("cpu", 3000, 70.0);
    let history = store.history("cpu", 5);
    assert_eq!(history.len(), 3);
    assert_eq!(history[0].value, 50.0);
    assert_eq!(history[2].value, 70.0);
}

#[test]
fn test_metric_store_capacity_eviction() {
    let mut store = MetricStore::new(3);
    for i in 0..5 {
        store.push("mem", i * 1000, i as f64);
    }
    let history = store.history("mem", 0);
    assert_eq!(history.len(), 3);
    assert_eq!(history[0].value, 2.0);
}

#[test]
fn test_metric_store_history_duration_filter() {
    let mut store = MetricStore::new(100);
    store.push("cpu", 1000, 10.0);
    store.push("cpu", 3000, 20.0);
    store.push("cpu", 5000, 30.0);
    let history = store.history("cpu", 3);
    assert_eq!(history.len(), 2, "should include samples at 3000 and 5000");
}

#[test]
fn test_metric_store_unknown_metric_returns_empty() {
    let store: MetricStore<f64> = MetricStore::new(100);
    assert!(store.history("unknown", 60).is_empty());
}

#[test]
fn metric_store_keeps_series_apart_and_newest_at_zero_capacity() {
    let mut store = MetricStore::new(0);
    store.push("a", 1, 1.0);
    store.push("b", 2, 2.0);
    store.push("a", 3, 3.0);
    let a = store.history("a", 0);
    assert_eq!(a.len(), 1);
    assert_eq!(a[0].timestamp_ms, 3);
    assert_eq!(store.history("b", 0)[0].value, 2.0);
}

#[test]
fn arbiter_messages() {
    assert_eq!(arbiter_command("approve", "3"), Ok(ArbiterCommand::Approve(3)));
    assert_eq!(arbiter_command("deny", "+12"), Ok(ArbiterCommand::Deny(12)));
    assert_eq!(arbiter_command("deny", "x"), Err(CommandError::InvalidId));
    assert_eq!(arbiter_command("maybe", "1"), Err(CommandError::UnknownAction));
    assert_eq!(arbiter_command("maybe", "-1"), Err(CommandError::InvalidId));
    assert_eq!(parse_usize(""), None);
    assert_eq!(parse_usize("+"), None);
    assert_eq!(parse_usize("007"), Some(7));
    assert_eq!(parse_usize("18446744073709551616"), "18446744073709551616".parse::<usize>().ok());
}

#[test]
fn test_hex_color_parsing_valid() {
    assert_eq!(parse_hex_color("#FF0000").unwrap(), Rgb { r: 255, g: 0, b: 0 });
    assert_eq!(parse_hex_color("#00FF00").unwrap(), Rgb { r: 0, g: 255, b: 0 });
    assert_eq!(parse_hex_color("#0000FF").unwrap(), Rgb { r: 0, g: 0, b: 255 });
    assert_eq!(parse_hex_color("#050A0E").unwrap(), Rgb { r: 5, g: 10, b: 14 });
    assert_eq!(parse_hex_color("FAFAFA").unwrap(), Rgb { r: 250, g: 250, b: 250 });
}

#[test]
fn test_hex_color_parsing_invalid_length() {
    assert!(parse_hex_color("#FFF").is_err(), "3-char hex should fail");
    assert!(parse_hex_color("#GGGGGG").is_err(), "non-hex chars should fail");
}

#[test]
fn hex_color_messages() {
    match parse_hex_color("#FFF") {
        Err(RenderError::Theme(m)) => assert_eq!(m, "invalid hex color length: expected 6 chars, got 3"),
        _ => panic!("expected a theme error"),
    }
    match parse_hex_color("#00GG00") {
        Err(RenderError::Theme(m)) => assert_eq!(m, "bad green component: invalid digit found in string"),
        _ => panic!("expected a theme error"),
    }
    assert_eq!(parse_hex_color("+F+F+F").unwrap(), Rgb { r: 15, g: 15, b: 15 });
}

#[test]
fn test_theme_default_matches_palette() {
    let theme = Theme::default();
    assert_eq!(theme.bg, Palette::bg());
    assert_eq!(theme.healthy, Palette::healthy());
    assert_eq!(theme.critical, Palette::critical());
}

#[test]
fn theme_from_file_colors() {
    let colors = ThemeColors {
        bg: "#000000".into(),
        healthy: "#00FF41".into(),
        neon_blue: "#008F11".into(),
        warning: "#CCFF00".into(),
        critical: "#FF0000".into(),
        data: "#00FF41".into(),
        xp_purple: "#39FF14".into(),
    };
    let theme = theme_from_colors(&colors).unwrap();
    assert_eq!(theme.bg, Rgb { r: 0, g: 0, b: 0 });
    assert_eq!(theme.warning, Rgb { r: 0xCC, g: 0xFF, b: 0 });
    let bad = ThemeColors { warning: "#12".into(), ..colors };
    assert!(theme_from_colors(&bad).is_err());
}

#[test]
fn filter_with_lowered_severity() {
    let f = DiagnosticFilter { severity: Some("WARNING".into()), host: None };
    assert!(f.accepts_lowered("warning", DiagSeverity::Warning, "any"));
    assert!(!f.accepts_lowered("WARNING", DiagSeverity::Warning, "any"));
    assert!(!f.accepts_lowered("warning", DiagSeverity::Info, "any"));
    let h = DiagnosticFilter { severity: None, host: Some("db".into()) };
    assert!(h.accepts_lowered("ignored", DiagSeverity::Info, "db"));
    assert!(!h.accepts_lowered("ignored", DiagSeverity::Info, "web"));
}

fn record(id: u64, severity: DiagSeverity) -> DiagnosticRecord {
    DiagnosticRecord {
        id,
        host: "local".into(),
        target: DiagTarget::Process { pid: 7, name: "db".into() },
        severity,
        category: "MemoryLeak".into(),
        summary: "grows".into(),
        evidence: vec![("mem".into(), "steady climb".into())],
        action: "Investigate".into(),
        reason: "watch".into(),
        urgency: "Soon".into(),
    }
}

#[test]
fn diagnostic_response_fields() {
    let e = diagnostic_to_response(&record(9, DiagSeverity::Warning));
    assert_eq!(e.id, 9);
    assert_eq!(e.host, "local");
    assert_eq!(e.target_type, "process");
    assert_eq!(e.target_name, "db (pid 7)");
    assert_eq!(e.severity, "warning");
    assert_eq!(e.category, "MemoryLeak");
    assert_eq!(e.summary, "grows");
    assert_eq!(e.evidence.len(), 1);
    assert_eq!((e.evidence[0].metric.as_str(), e.evidence[0].context.as_str()), ("mem", "steady climb"));
    assert_eq!(e.recommendation.action, "Investigate");
    assert_eq!(e.recommendation.reason, "watch");
    assert_eq!(e.recommendation.urgency, "Soon");
    let mut c = record(1, DiagSeverity::Info);
    c.target = DiagTarget::Container { name: "web".into(), id: "abc".into() };
    let e = diagnostic_to_response(&c);
    assert_eq!((e.target_type.as_str(), e.target_name.as_str()), ("container", "web (abc)"));
}

#[test]
fn world_update_counts_and_entries() {
    let procs = vec![
        WorldProcess { pid: 1, ppid: 0, name: "init".into(), mem_bytes: 1000, state: ProcessState::Running, xp: 5 },
        WorldProcess { pid: 9, ppid: 1, name: "sh".into(), mem_bytes: 24, state: ProcessState::Zombie, xp: 0 },
    ];
    let edges = vec![WorldEdge { from_pid: 1, to_pid: 9, protocol: Protocol::UDP, bytes_per_sec: 77 }];
    let diags = vec![
        record(1, DiagSeverity::Critical),
        record(2, DiagSeverity::Info),
        record(3, DiagSeverity::Info),
    ];
    let u = world_update(&procs, &edges, &diags, 123);
    assert_eq!(u.diagnostics.len(), 3);
    assert_eq!(u.diagnostics[1].id, 2);
    assert_eq!(u.diagnostics[0].severity, "critical");
    assert_eq!(u.kind, "world_state");
    assert_eq!(u.process_count, 2);
    assert_eq!(u.total_memory, 1024);
    assert_eq!(u.processes[1].state, "Zombie");
    assert_eq!(u.processes[1].name, "sh");
    assert_eq!(u.connections.len(), 1);
    assert_eq!(u.connections[0].protocol, "UDP");
    assert_eq!(u.connections[0].bytes_per_sec, 77);
    assert_eq!((u.diagnostic_stats.critical, u.diagnostic_stats.warning, u.diagnostic_stats.info), (1, 0, 2));
    assert_eq!(u.diagnostic_stats.total, 3);
    assert_eq!(u.timestamp, 123);
}
