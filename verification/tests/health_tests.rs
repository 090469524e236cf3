use hivemind::containers::ContainerStats;
use hivemind::health::{
    evaluate_node_health, node_sample, run_custom_health_check, AlertSeverity, AlertSource, AlertStatus, ContainerCheck,
    HealthCheckConfig, HealthError, HealthMonitor, HealthStatus, HealthTrend, MetricType, NetworkHealthStatus,
};

fn check(id: &str, healthy: bool) -> ContainerCheck {
    ContainerCheck { container_id: id.to_string(), is_healthy: healthy, custom_result: None, stats: None }
}

fn round(m: &mut HealthMonitor, id: &str, healthy: bool, now: i64) {
    m.check_container_health(vec![check(id, healthy)], now);
}

#[test]
fn healthy_check_resets_failures() {
    let mut m = HealthMonitor::new();
    round(&mut m, "c1", false, 1);
    round(&mut m, "c1", false, 2);
    let h = m.get_container_health("c1").unwrap();
    assert_eq!(h.consecutive_failures, 2);
    assert_eq!(h.status, HealthStatus::Unhealthy);
    round(&mut m, "c1", true, 3);
    let h = m.get_container_health("c1").unwrap();
    assert_eq!(h.consecutive_failures, 0);
    assert_eq!(h.status, HealthStatus::Healthy);
    assert_eq!(h.health_history.len(), 3);
    assert_eq!(h.last_check, 3);
    assert!(m.restart_queue.is_empty());
    assert!(m.get_all_alerts().is_empty());
}

#[test]
fn threshold_queues_restart_once() {
    let mut m = HealthMonitor::new();
    for t in 1..=4 {
        round(&mut m, "c1", false, t);
    }
    assert_eq!(m.get_container_health("c1").unwrap().status, HealthStatus::Failed);
    assert_eq!(m.restart_queue, vec!["c1".to_string()]);
    let alerts = m.get_all_alerts();
    assert_eq!(alerts.len(), 1);
    assert_eq!(alerts[0].severity, AlertSeverity::Warning);
    assert_eq!(alerts[0].message, "Container c1 health check failed, marked for restart");
    assert!(alerts[0].id.starts_with("alert-3-"));
}

#[test]
fn exceeded_restarts_raise_critical_alert() {
    let mut config = HealthCheckConfig::default();
    config.max_restart_attempts = 0;
    let mut m = HealthMonitor::with_config(config);
    for t in 1..=3 {
        round(&mut m, "c1", false, t);
    }
    assert!(m.restart_queue.is_empty());
    let alerts = m.get_all_alerts();
    assert_eq!(alerts.len(), 1);
    assert_eq!(alerts[0].severity, AlertSeverity::Critical);
    assert_eq!(alerts[0].message, "Container c1 has exceeded maximum restart attempts (0)");
}

#[test]
fn forced_restart_queued_once() {
    let mut m = HealthMonitor::new();
    m.force_restart_container("c1");
    m.force_restart_container("c1");
    m.force_restart_container("c2");
    assert_eq!(m.take_restart_queue(), vec!["c1".to_string(), "c2".to_string()]);
    assert!(m.restart_queue.is_empty());
}

#[test]
fn history_stays_bounded() {
    let mut m = HealthMonitor::new();
    for t in 0..150 {
        round(&mut m, "c1", true, t);
    }
    let h = m.get_container_health("c1").unwrap();
    assert_eq!(h.health_history.len(), 100);
    assert_eq!(h.health_history[0].timestamp, 50);
}

#[test]
fn restart_bookkeeping() {
    let mut m = HealthMonitor::new();
    round(&mut m, "c1", false, 1);
    m.begin_restart("c1", 10);
    let h = m.get_container_health("c1").unwrap();
    assert_eq!(h.status, HealthStatus::Restarting);
    assert_eq!(h.restart_count, 1);
    assert_eq!(h.last_restart, Some(10));
    m.finish_restart("c1", true);
    let h = m.get_container_health("c1").unwrap();
    assert_eq!(h.status, HealthStatus::Healthy);
    assert_eq!(h.consecutive_failures, 0);
    m.finish_restart("c1", false);
    assert_eq!(m.get_container_health("c1").unwrap().status, HealthStatus::Failed);
}

#[test]
fn alert_lifecycle() {
    let mut m = HealthMonitor::new();
    m.create_alert(AlertSeverity::Info, AlertSource::System, "m".to_string(), 5);
    let id = m.get_all_alerts()[0].id.clone();
    assert!(id.starts_with("alert-5-"));
    assert_eq!(m.get_active_alerts().len(), 1);
    assert_eq!(m.acknowledge_alert(&id), Ok(()));
    assert_eq!(m.get_all_alerts()[0].status, AlertStatus::Acknowledged);
    assert_eq!(m.resolve_alert(&id, 7), Ok(()));
    let a = &m.get_all_alerts()[0];
    assert_eq!(a.status, AlertStatus::Resolved);
    assert_eq!(a.resolved_at, Some(7));
    assert!(m.get_active_alerts().is_empty());
    assert_eq!(m.resolve_alert("nope", 8), Err(HealthError::AlertNotFound("nope".to_string())));
    assert_eq!(m.acknowledge_alert("nope"), Err(HealthError::AlertNotFound("nope".to_string())));
}

#[test]
fn resolving_takes_one_alert_off_active_list() {
    let mut m = HealthMonitor::new();
    m.create_alert_with_token(AlertSeverity::Warning, AlertSource::Node("n1".to_string()), "a".to_string(), 1, "x-1");
    m.create_alert_with_token(AlertSeverity::Warning, AlertSource::Node("n1".to_string()), "b".to_string(), 2, "y-2");
    assert_eq!(m.get_active_alerts().len(), 2);
    m.resolve_alert("alert-1-x", 3).unwrap();
    let active = m.get_active_alerts();
    assert_eq!(active.len(), 1);
    assert_eq!(active[0].message, "b");
}

#[test]
fn custom_check_outcome_from_id() {
    let ok = run_custom_health_check("a", "true", 9).unwrap();
    assert!(ok.success);
    assert_eq!(ok.exit_code, 0);
    assert_eq!(ok.output, "Health check passed");
    assert_eq!(ok.timestamp, 9);
    let bad = run_custom_health_check("d", "true", 9).unwrap();
    assert!(!bad.success);
    assert_eq!(bad.exit_code, 1);
    assert_eq!(bad.output, "Health check failed");
}

#[test]
fn node_sample_formula() {
    let n = node_sample("n", 123, 1);
    assert_eq!(n.cpu_usage_centi, 3230);
    assert_eq!(n.memory_usage_centi, 5115);
    assert_eq!(n.disk_usage_centi, 2076);
    assert_eq!(n.network_status, NetworkHealthStatus::Connected);
    assert_eq!(n.container_count, 0);
    assert!(evaluate_node_health(&n));
    assert_eq!(node_sample("n", 123, 20).network_status, NetworkHealthStatus::Degraded);
    assert!(!evaluate_node_health(&node_sample("n", 123, 20)));
    let mut hot = node_sample("n", 0, 1);
    hot.cpu_usage_centi = 9001;
    assert!(!evaluate_node_health(&hot));
}

#[test]
fn metric_series_by_entity() {
    let mut m = HealthMonitor::new();
    let s = ContainerStats { cpu_usage_centi: 150, memory_usage: 10, network_rx: 1, network_tx: 2, last_updated: 0 };
    m.store_container_metrics("c1", &s, 4);
    let cpu = m.get_metrics_history("container:c1", MetricType::CpuUsage);
    assert_eq!(cpu.len(), 1);
    assert_eq!(cpu[0].value, 150);
    assert_eq!(cpu[0].timestamp, 4);
    assert_eq!(m.get_metrics_history("container:c1", MetricType::NetworkTx)[0].value, 2);
    assert!(m.get_metrics_history("container:c1", MetricType::DiskUsage).is_empty());
    let n = node_sample("n1", 5, 1);
    m.store_node_metrics("n1", &n, 5);
    assert_eq!(m.get_metrics_history("n1", MetricType::DiskUsage)[0].value, n.disk_usage_centi);
    assert!(m.get_metrics_history("n1", MetricType::NetworkRx).is_empty());
}

#[test]
fn metric_series_keep_last_thousand() {
    let mut m = HealthMonitor::new();
    let s = ContainerStats { cpu_usage_centi: 1, memory_usage: 1, network_rx: 1, network_tx: 1, last_updated: 0 };
    for t in 0..1005 {
        m.store_container_metrics("c1", &s, t);
    }
    let cpu = m.get_metrics_history("container:c1", MetricType::CpuUsage);
    assert_eq!(cpu.len(), 1000);
    assert_eq!(cpu[0].timestamp, 5);
}

#[test]
fn summary_and_trend() {
    let mut m = HealthMonitor::new();
    assert_eq!(m.calculate_health_trend(), HealthTrend::Improving);
    round(&mut m, "c1", false, 1);
    round(&mut m, "c2", true, 1);
    assert_eq!(m.calculate_health_trend(), HealthTrend::Stable);
    round(&mut m, "c3", false, 1);
    assert_eq!(m.calculate_health_trend(), HealthTrend::Degrading);
    let s = m.get_health_summary(9);
    assert_eq!(s.total_containers, 3);
    assert_eq!(s.healthy_containers, 1);
    assert_eq!(s.unhealthy_containers, 2);
    assert_eq!(s.last_check, 9);
    assert_eq!(s.health_trend, HealthTrend::Degrading);
}

#[test]
fn start_and_stop() {
    let mut m = HealthMonitor::new();
    assert!(m.start());
    assert!(!m.start());
    m.stop();
    assert!(!m.is_running);
}
