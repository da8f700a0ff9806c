use aether::targets::{
    merge_targets, target_from_config, EndpointType, Target, TargetConfig, TargetKind,
};

fn config(name: &str) -> TargetConfig {
    TargetConfig {
        name: name.to_string(),
        kind: None,
        prometheus: None,
        health: None,
        probe_tcp: None,
        logs: None,
        labels: Vec::new(),
    }
}

fn target(id: &str) -> Target {
    Target {
        id: id.to_string(),
        name: format!("name-{id}"),
        kind: TargetKind::Service,
        endpoints: Vec::new(),
        labels: Vec::new(),
        discovered_at: 0,
    }
}

#[test]
fn config_target_gets_prefixed_id_and_fields() {
    let mut tc = config("api");
    tc.kind = Some("container".to_string());
    tc.labels = vec![("env".to_string(), "prod".to_string())];
    let t = target_from_config(&tc, 1234);
    assert_eq!(t.id, "cfg-api");
    assert_eq!(t.name, "api");
    assert_eq!(t.kind, TargetKind::Container);
    assert!(t.endpoints.is_empty());
    assert_eq!(t.labels, vec![("env".to_string(), "prod".to_string())]);
    assert_eq!(t.discovered_at, 1234);
}

#[test]
fn config_kind_names() {
    let kinds = [
        (Some("container"), TargetKind::Container),
        (Some("pod"), TargetKind::Pod),
        (Some("process"), TargetKind::Process),
        (Some("vm"), TargetKind::Service),
        (Some("Pod"), TargetKind::Service),
        (None, TargetKind::Service),
    ];
    for (name, kind) in kinds {
        let mut tc = config("x");
        tc.kind = name.map(|s| s.to_string());
        assert_eq!(target_from_config(&tc, 0).kind, kind);
    }
}

#[test]
fn config_endpoints_in_order_with_tcp_scheme() {
    let mut tc = config("db");
    tc.logs = Some("/var/log/db.log".to_string());
    tc.probe_tcp = Some("10.0.0.5:5432".to_string());
    tc.prometheus = Some("http://db:9187/metrics".to_string());
    tc.health = Some("http://db:8080/health".to_string());
    let t = target_from_config(&tc, 0);
    let got: Vec<(String, EndpointType)> =
        t.endpoints.iter().map(|e| (e.url.clone(), e.endpoint_type)).collect();
    assert_eq!(
        got,
        vec![
            ("http://db:9187/metrics".to_string(), EndpointType::Prometheus),
            ("http://db:8080/health".to_string(), EndpointType::Health),
            ("tcp://10.0.0.5:5432".to_string(), EndpointType::TcpProbe),
            ("/var/log/db.log".to_string(), EndpointType::Logs),
        ]
    );
}

#[test]
fn merge_skips_known_ids_and_counts_added() {
    let mut list = vec![target("a"), target("b")];
    let added = merge_targets(&mut list, vec![target("b"), target("c"), target("c"), target("d")]);
    assert_eq!(added, 2);
    let ids: Vec<&str> = list.iter().map(|t| t.id.as_str()).collect();
    assert_eq!(ids, vec!["a", "b", "c", "d"]);
}

#[test]
fn merge_keeps_existing_entry_for_duplicate_id() {
    let mut list = vec![target("a")];
    let mut other = target("a");
    other.name = "replacement".to_string();
    let added = merge_targets(&mut list, vec![other]);
    assert_eq!(added, 0);
    assert_eq!(list.len(), 1);
    assert_eq!(list[0].name, "name-a");
}

#[test]
fn merge_nothing_discovered() {
    let mut list = vec![target("a")];
    assert_eq!(merge_targets(&mut list, Vec::new()), 0);
    assert_eq!(list.len(), 1);
}
