use base64::Engine;
use hivemind::containerd::{
    begin_image_pull, command_check_verdict, complete_image_pull, container_mounts, fallback_stats, filter_logs,
    health_check_address, health_check_url, http_check_verdict, new_container_id, parse_image_name, parse_log_line,
    process_env, registry_authorization, stats_from_metrics, tail_logs, tcp_check_verdict, ContainerdError,
    ContainerdManager, HealthCheckStatus, HealthCheckType, HealthProbe, ImagePullStatus, LogEntry, LogStream,
    MetricsLookup, RegistryAuth, StopOutcome, DEFAULT_PATH_ENV,
};
use hivemind::containers::{ContainerStats, ContainerStatus, EnvVar, Volume};

fn manager_with(id: &str) -> ContainerdManager {
    let mut m = ContainerdManager::new("hivemind".to_string());
    m.record_container(id.to_string(), "web", "nginx", vec![], vec![], vec![], 5);
    m
}

fn entry(t: i64, s: LogStream, c: &str) -> LogEntry {
    LogEntry { timestamp: t, stream: s, content: c.to_string() }
}

fn stats(cpu: u64) -> ContainerStats {
    ContainerStats { cpu_usage_centi: cpu, memory_usage: 1, network_rx: 2, network_tx: 3, last_updated: 0 }
}

#[test]
fn image_names() {
    let p = |s: &str| parse_image_name(s);
    assert_eq!(p("nginx"), ("docker.io".to_string(), "nginx".to_string(), "latest".to_string()));
    assert_eq!(
        p("registry.io:5000/app/web:1.2"),
        ("registry.io:5000".to_string(), "app/web".to_string(), "1.2".to_string())
    );
    assert_eq!(p("library/nginx:alpine"), ("docker.io".to_string(), "library/nginx".to_string(), "alpine".to_string()));
}

#[test]
fn process_environment() {
    let env = vec![EnvVar { key: "A".to_string(), value: "1".to_string() }];
    assert_eq!(process_env(&env), vec![DEFAULT_PATH_ENV.to_string(), "A=1".to_string()]);
}

#[test]
fn container_ids_are_prefixed() {
    let id = new_container_id();
    assert!(id.starts_with("hivemind-"));
    assert_eq!(id.len(), 45);
}

#[test]
fn mounts_include_volume_binds() {
    let ms = container_mounts(&vec![("data".to_string(), "/d".to_string())]);
    assert_eq!(ms.len(), 3);
    assert_eq!(ms[0].destination, "/proc");
    assert_eq!(ms[1].kind, "tmpfs");
    assert_eq!(ms[2].destination, "/d");
    assert_eq!(ms[2].source, "/var/lib/hivemind/volumes/data");
    assert_eq!(ms[2].kind, "bind");
    assert_eq!(ms[2].options, vec!["rbind".to_string(), "rw".to_string()]);
}

#[test]
fn fallback_statistics_formula() {
    let s = fallback_stats("ab", 9);
    assert_eq!(s.cpu_usage_centi, 9550);
    assert_eq!(s.memory_usage, 323 * 1024 * 1024);
    assert_eq!(s.network_rx, 96 * 1024 * 1024);
    assert_eq!(s.network_tx, 46 * 1024 * 1024);
    assert_eq!(s.last_updated, 9);
}

#[test]
fn statistics_from_metrics() {
    let ms = vec![
        ("memory.usage.usage".to_string(), "100".to_string()),
        ("network.usage.rx.bytes".to_string(), "x".to_string()),
        ("network.usage.tx.bytes".to_string(), "7".to_string()),
    ];
    let s = stats_from_metrics(&ms, 30, "c", 4);
    assert_eq!((s.cpu_usage_centi, s.memory_usage, s.network_rx, s.network_tx, s.last_updated), (30, 100, 0, 7, 4));
    assert_eq!(stats_from_metrics(&vec![], 30, "ab", 4), fallback_stats("ab", 4));
}

#[test]
fn check_addresses_and_verdicts() {
    assert_eq!(health_check_url("127.0.0.1", 8080, "/health"), "http://127.0.0.1:8080/health");
    assert_eq!(health_check_address("10.0.0.1", 80), "10.0.0.1:80");
    assert_eq!(http_check_verdict(Some(200), 200), HealthCheckStatus::Healthy);
    assert_eq!(http_check_verdict(Some(500), 200), HealthCheckStatus::Unhealthy);
    assert_eq!(http_check_verdict(None, 200), HealthCheckStatus::Unhealthy);
    assert_eq!(tcp_check_verdict(true), HealthCheckStatus::Healthy);
    assert_eq!(tcp_check_verdict(false), HealthCheckStatus::Unhealthy);
    assert_eq!(command_check_verdict(Some(0), 0), HealthCheckStatus::Healthy);
    assert_eq!(command_check_verdict(Some(2), 0), HealthCheckStatus::Unhealthy);
    assert_eq!(command_check_verdict(None, 0), HealthCheckStatus::Unknown);
}

#[test]
fn registry_authorization_encodes_credentials() {
    let auth = RegistryAuth {
        username: "u".to_string(),
        password: "p".to_string(),
        server: "reg.io".to_string(),
        email: None,
    };
    let token = registry_authorization(&auth);
    assert_eq!(token.len() % 4, 0);
    let bytes = base64::engine::general_purpose::STANDARD.decode(token.as_bytes()).unwrap();
    let doc: serde_json::Value = serde_json::from_slice(&bytes).unwrap();
    assert_eq!(doc["auths"]["reg.io"]["username"], serde_json::Value::String("u".to_string()));
    assert_eq!(doc["auths"]["reg.io"]["password"], serde_json::Value::String("p".to_string()));
    assert_eq!(doc["auths"]["reg.io"]["email"], serde_json::Value::Null);
}

#[test]
fn image_pull_progress() {
    let mut p = begin_image_pull("quay.io/x/y:1", 3);
    assert_eq!(p.registry, "quay.io");
    assert_eq!(p.status, ImagePullStatus::InProgress);
    complete_image_pull(&mut p, 8);
    assert_eq!(p.status, ImagePullStatus::Completed);
    assert_eq!(p.completed_at, Some(8));
    assert_eq!(p.started_at, 3);
}

#[test]
fn health_check_configuration() {
    let mut m = manager_with("c1");
    m.record_container("c2".to_string(), "db", "pg", vec![], vec![], vec![], 5);
    assert_eq!(m.configure_health_check("c1", HealthCheckType::Tcp { port: 80 }, 10, 5, 3), Ok(()));
    assert_eq!(m.get_health_check_status("c1"), Ok(HealthCheckStatus::Unknown));
    m.record_health_check("c1", HealthCheckStatus::Healthy, 20);
    assert_eq!(m.get_health_check_status("c1"), Ok(HealthCheckStatus::Healthy));
    match m.plan_health_check("c1") {
        Ok(HealthProbe::Tcp { address }) => assert_eq!(address, "127.0.0.1:80"),
        other => panic!("unexpected {:?}", other),
    }
    assert_eq!(m.get_health_check_status("c2"), Err(ContainerdError::NoHealthCheck("c2".to_string())));
    assert!(matches!(m.plan_health_check("c2"), Err(ContainerdError::NoHealthCheck(_))));
    assert_eq!(m.get_health_check_status("x"), Err(ContainerdError::ContainerNotFound("x".to_string())));
    assert_eq!(
        m.configure_health_check("x", HealthCheckType::Tcp { port: 1 }, 1, 1, 1),
        Err(ContainerdError::ContainerNotFound("x".to_string()))
    );
}

#[test]
fn metrics_cache_freshness() {
    let mut m = manager_with("c1");
    assert!(matches!(m.lookup_metrics("c1", 100), Ok(MetricsLookup::Collect)));
    m.update_container_metrics("c1", stats(7), 100);
    match m.lookup_metrics("c1", 104) {
        Ok(MetricsLookup::Cached(s)) => assert_eq!(s, stats(7)),
        other => panic!("unexpected {:?}", other),
    }
    assert!(matches!(m.lookup_metrics("c1", 105), Ok(MetricsLookup::Collect)));
    assert_eq!(m.metrics_collected("c1", None, 300), Ok(stats(7)));
    assert_eq!(m.metrics_collected("c1", Some(stats(9)), 301), Ok(stats(9)));
    assert_eq!(m.metrics_collected("c9", None, 300), Err(ContainerdError::MetricsUnavailable("c9".to_string())));
    assert!(matches!(m.lookup_metrics("zz", 1), Err(ContainerdError::ContainerNotFound(_))));
}

#[test]
fn stopping_outcomes() {
    let mut m = manager_with("c1");
    assert_eq!(m.finish_stop("c1", StopOutcome::KillFailed("boom".to_string())), Err(ContainerdError::TaskKill("boom".to_string())));
    assert_eq!(m.containers[0].1.status, ContainerStatus::Running);
    assert_eq!(m.finish_stop("c1", StopOutcome::Deleted), Ok(()));
    assert_eq!(m.containers[0].1.status, ContainerStatus::Stopped);
    assert!(ContainerdManager::kill_error_means_missing("task abc not found"));
    assert!(!ContainerdManager::kill_error_means_missing("permission denied"));
}

#[test]
fn cached_logs_filtered() {
    let mut m = manager_with("c1");
    assert!(matches!(m.get_cached_logs("c1", None, None, None, true, true), Ok(None)));
    m.cache_log_entry("c1", entry(1, LogStream::Stdout, "a"));
    m.cache_log_entry("c1", entry(2, LogStream::Stderr, "b"));
    m.cache_log_entry("c1", entry(3, LogStream::Stdout, "c"));
    let all = m.get_cached_logs("c1", None, None, None, true, true).unwrap().unwrap();
    assert_eq!(all.iter().map(|e| e.content.clone()).collect::<Vec<_>>(), vec!["a", "b", "c"]);
    let tail = m.get_cached_logs("c1", Some(2), None, None, true, true).unwrap().unwrap();
    assert_eq!(tail.iter().map(|e| e.content.clone()).collect::<Vec<_>>(), vec!["b", "c"]);
    let out = m.get_cached_logs("c1", None, Some(2), None, true, false).unwrap().unwrap();
    assert_eq!(out.iter().map(|e| e.content.clone()).collect::<Vec<_>>(), vec!["c"]);
    assert!(matches!(m.get_cached_logs("zz", None, None, None, true, true), Err(ContainerdError::ContainerNotFound(_))));
}

#[test]
fn log_filters_and_tail() {
    let logs = vec![entry(1, LogStream::Stdout, "a"), entry(5, LogStream::Stderr, "b"), entry(9, LogStream::Stdout, "c")];
    let f = filter_logs(&logs, None, Some(2), Some(8), true, true);
    assert_eq!(f.len(), 1);
    assert_eq!(f[0].content, "b");
    assert_eq!(filter_logs(&logs, Some(1), None, None, true, true)[0].content, "c");
    assert_eq!(tail_logs(logs, Some(10)).len(), 3);
}

#[test]
fn log_line_timestamps() {
    let (t, text) = parse_log_line("2023-01-02T03:04:05.123456789Z   hello", 7);
    assert_eq!(t, 1672628645);
    assert_eq!(text, "hello");
    assert_eq!(parse_log_line("short Z x", 7), (7, "short Z x".to_string()));
    assert_eq!(parse_log_line("no timestamp here", 7), (7, "no timestamp here".to_string()));
    assert_eq!(parse_log_line("not-a-date-at-all-reallyZ tail", 7), (7, "not-a-date-at-all-reallyZ tail".to_string()));
}

#[test]
fn volume_bookkeeping() {
    let mut m = manager_with("c1");
    m.record_volume("v1", 5);
    assert_eq!(m.volume_dir("v1"), Ok("/var/lib/hivemind/volumes/v1".to_string()));
    assert_eq!(m.delete_volume("v1"), Ok("/var/lib/hivemind/volumes/v1".to_string()));
    assert_eq!(m.volume_dir("v1"), Err(ContainerdError::VolumeNotFound("v1".to_string())));
    assert_eq!(m.delete_volume("v1"), Err(ContainerdError::VolumeNotFound("v1".to_string())));
    m.add_discovered_volume("v2", "/x", 1);
    m.add_discovered_volume("v2", "/y", 2);
    m.add_discovered_volume("a0", "/z", 3);
    let vs = m.list_volumes();
    assert_eq!(vs.iter().map(|v| v.name.clone()).collect::<Vec<_>>(), vec!["a0", "v2"]);
    assert_eq!(vs[1].path, "/x");
    m.record_volume("v3", 1);
    let vol = Volume { name: "v3".to_string(), path: "/m".to_string(), size: 0, created_at: 1 };
    m.record_container("c2".to_string(), "db", "pg", vec![], vec![], vec![vol], 5);
    assert_eq!(
        m.delete_volume("v3"),
        Err(ContainerdError::VolumeInUse { volume: "v3".to_string(), container_name: "db".to_string() })
    );
}
