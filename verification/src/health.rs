//! Health tracking of containers and nodes: failure counting, restart
//! scheduling, alerts, metric histories and the cluster health summary.
//!
//! Resource usage is kept in hundredths of a percent (`..._centi`): 90 % is 9000.
use vstd::prelude::*;
use crate::assoc::{strings_view, as_map, keys_distinct, key_pos, find_key, insert_key, lemma_key_pos, lemma_as_map_index};
use crate::containers::{Container, ContainerStats, ContainerStatus, new_uuid};
use crate::containerd::HealthCheckStatus;
use crate::text::{decimal, signed_decimal, first_index_of, owned, push_str, push_char, push_decimal,
    push_signed_decimal, chars_of, find_char, slice_chars, string_of, str_eq, digit_char, digit, starts_with,
    is_prefix, utf8_bytes, byte_sum, byte_sum_u64};

verus! {

/// How many entries a container's or node's health history keeps.
pub const HISTORY_LIMIT: usize = 100;

/// How many points each metric series keeps.
pub const METRIC_HISTORY_LIMIT: usize = 1000;

/// Settings of the health monitor.
#[derive(Debug)]
pub struct HealthCheckConfig {
    pub check_interval_seconds: u64,
    pub failure_threshold: u32,
    pub restart_delay_seconds: u64,
    pub max_restart_attempts: u32,
    pub health_check_timeout_seconds: u64,
    pub custom_health_check_command: Option<String>,
    pub node_check_interval_seconds: u64,
    pub node_failure_threshold: u32,
}

impl Default for HealthCheckConfig {
    fn default() -> (c: Self)
        ensures
            c.check_interval_seconds == 30,
            c.failure_threshold == 3,
            c.restart_delay_seconds == 5,
            c.max_restart_attempts == 5,
            c.health_check_timeout_seconds == 10,
            c.custom_health_check_command is None,
            c.node_check_interval_seconds == 60,
            c.node_failure_threshold == 3,
    {
        HealthCheckConfig {
            check_interval_seconds: 30,
            failure_threshold: 3,
            restart_delay_seconds: 5,
            max_restart_attempts: 5,
            health_check_timeout_seconds: 10,
            custom_health_check_command: None,
            node_check_interval_seconds: 60,
            node_failure_threshold: 3,
        }
    }
}

/// Health of a container.
#[derive(Debug, Clone, Copy, PartialEq, Eq, Structural)]
pub enum HealthStatus {
    Healthy,
    Unhealthy,
    Degraded,
    Failed,
    Restarting,
}

impl HealthStatus {
    /// The lowercase name of the status.
    pub fn as_str(&self) -> (r: &'static str)
        ensures
            r@ == health_status_text(*self),
    {
        match self {
            HealthStatus::Healthy => "healthy",
            HealthStatus::Unhealthy => "unhealthy",
            HealthStatus::Degraded => "degraded",
            HealthStatus::Failed => "failed",
            HealthStatus::Restarting => "restarting",
        }
    }
}

/// The lowercase name of a health status.
pub open spec fn health_status_text(s: HealthStatus) -> Seq<char> {
    match s {
        HealthStatus::Healthy => "healthy"@,
        HealthStatus::Unhealthy => "unhealthy"@,
        HealthStatus::Degraded => "degraded"@,
        HealthStatus::Failed => "failed"@,
        HealthStatus::Restarting => "restarting"@,
    }
}

/// Network reachability of a node.
#[derive(Debug, Clone, Copy, PartialEq, Eq, Structural)]
pub enum NetworkHealthStatus {
    Connected,
    Degraded,
    Disconnected,
}

impl NetworkHealthStatus {
    /// The lowercase name of the status.
    pub fn as_str(&self) -> (r: &'static str)
        ensures
            r@ == network_status_text(*self),
    {
        match self {
            NetworkHealthStatus::Connected => "connected",
            NetworkHealthStatus::Degraded => "degraded",
            NetworkHealthStatus::Disconnected => "disconnected",
        }
    }
}

/// The lowercase name of a network status.
pub open spec fn network_status_text(s: NetworkHealthStatus) -> Seq<char> {
    match s {
        NetworkHealthStatus::Connected => "connected"@,
        NetworkHealthStatus::Degraded => "degraded"@,
        NetworkHealthStatus::Disconnected => "disconnected"@,
    }
}

/// One entry of a container's health history.
#[derive(Debug)]
pub struct HealthHistoryEntry {
    pub timestamp: i64,
    pub status: HealthStatus,
    pub message: Option<String>,
}

/// Outcome of a custom health-check command.
#[derive(Debug)]
pub struct CustomHealthCheckResult {
    pub exit_code: i32,
    pub output: String,
    pub timestamp: i64,
    pub success: bool,
}

/// Health record of a container.
#[derive(Debug)]
pub struct ContainerHealth {
    pub container_id: String,
    pub last_check: i64,
    pub consecutive_failures: u32,
    pub restart_count: u32,
    pub status: HealthStatus,
    pub last_restart: Option<i64>,
    pub health_history: Vec<HealthHistoryEntry>,
    pub custom_check_result: Option<CustomHealthCheckResult>,
}

/// One entry of a node's health history.
#[derive(Debug)]
pub struct NodeHealthHistoryEntry {
    pub timestamp: i64,
    pub cpu_usage_centi: u64,
    pub memory_usage_centi: u64,
    pub disk_usage_centi: u64,
    pub network_status: NetworkHealthStatus,
    pub message: Option<String>,
}

/// Health record of a node, or one sample of a node's resource usage.
#[derive(Debug)]
pub struct NodeHealth {
    pub node_id: String,
    pub last_seen: i64,
    pub cpu_usage_centi: u64,
    pub memory_usage_centi: u64,
    pub disk_usage_centi: u64,
    pub network_status: NetworkHealthStatus,
    pub container_count: u32,
    pub health_history: Vec<NodeHealthHistoryEntry>,
    pub consecutive_failures: u32,
    pub is_healthy: bool,
    pub last_failure: Option<i64>,
}

/// How serious an alert is.
#[derive(Debug, Clone, Copy, PartialEq, Eq, Structural)]
pub enum AlertSeverity {
    Info,
    Warning,
    Critical,
}

/// What an alert is about.
#[derive(Debug)]
pub enum AlertSource {
    Container(String),
    Node(String),
    System,
}

/// Where an alert stands.
#[derive(Debug, Clone, Copy, PartialEq, Eq, Structural)]
pub enum AlertStatus {
    Active,
    Resolved,
    Acknowledged,
}

/// An alert raised by the monitor.
#[derive(Debug)]
pub struct Alert {
    pub id: String,
    pub timestamp: i64,
    pub severity: AlertSeverity,
    pub source: AlertSource,
    pub message: String,
    pub status: AlertStatus,
    pub resolved_at: Option<i64>,
}

/// The kind of a metric.
#[derive(Debug, Clone, Copy, PartialEq, Eq, Structural)]
pub enum MetricType {
    CpuUsage,
    MemoryUsage,
    DiskUsage,
    NetworkRx,
    NetworkTx,
}

/// One point of a metric series. CPU and disk usage are in hundredths of a
/// percent; memory and network values in bytes.
#[derive(Debug, Clone, Copy, PartialEq, Eq, Structural)]
pub struct MetricDataPoint {
    pub timestamp: i64,
    pub value: u64,
    pub metric_type: MetricType,
}

/// Direction of the cluster's health.
#[derive(Debug, Clone, Copy, PartialEq, Eq, Structural)]
pub enum HealthTrend {
    Improving,
    Stable,
    Degrading,
}

/// Counts and averages over the monitor's records.
#[derive(Debug, Clone, Copy, PartialEq, Eq, Structural)]
pub struct HealthSummary {
    pub total_containers: u32,
    pub healthy_containers: u32,
    pub unhealthy_containers: u32,
    pub total_nodes: u32,
    pub healthy_nodes: u32,
    pub unhealthy_nodes: u32,
    pub total_restarts: u32,
    pub last_check: i64,
    pub active_alerts: u32,
    pub critical_alerts: u32,
    pub avg_cpu_usage_centi: u64,
    pub avg_memory_usage_centi: u64,
    pub avg_disk_usage_centi: u64,
    pub health_trend: HealthTrend,
}

/// Errors of the health monitor.
#[derive(Debug, Clone, PartialEq, Eq)]
pub enum HealthError {
    AlertNotFound(String),
}

/// The optional text as characters.
pub open spec fn opt_text(o: Option<String>) -> Option<Seq<char>> {
    match o {
        Some(s) => Some(s@),
        None => None,
    }
}

/// Mathematical value of a [`HealthHistoryEntry`].
pub struct HistoryView {
    pub timestamp: i64,
    pub status: HealthStatus,
    pub message: Option<Seq<char>>,
}

impl View for HealthHistoryEntry {
    type V = HistoryView;

    open spec fn view(&self) -> HistoryView {
        HistoryView { timestamp: self.timestamp, status: self.status, message: opt_text(self.message) }
    }
}

/// Mathematical value of a [`CustomHealthCheckResult`].
pub struct CustomCheckView {
    pub exit_code: i32,
    pub output: Seq<char>,
    pub timestamp: i64,
    pub success: bool,
}

impl View for CustomHealthCheckResult {
    type V = CustomCheckView;

    open spec fn view(&self) -> CustomCheckView {
        CustomCheckView { exit_code: self.exit_code, output: self.output@, timestamp: self.timestamp, success: self.success }
    }
}

/// The view of an optional custom-check result.
pub open spec fn opt_custom(o: Option<CustomHealthCheckResult>) -> Option<CustomCheckView> {
    match o {
        Some(c) => Some(c@),
        None => None,
    }
}

/// Mathematical value of a [`ContainerHealth`].
pub struct ContainerHealthView {
    pub container_id: Seq<char>,
    pub last_check: i64,
    pub consecutive_failures: u32,
    pub restart_count: u32,
    pub status: HealthStatus,
    pub last_restart: Option<i64>,
    pub health_history: Seq<HistoryView>,
    pub custom_check_result: Option<CustomCheckView>,
}

impl View for ContainerHealth {
    type V = ContainerHealthView;

    open spec fn view(&self) -> ContainerHealthView {
        ContainerHealthView {
            container_id: self.container_id@,
            last_check: self.last_check,
            consecutive_failures: self.consecutive_failures,
            restart_count: self.restart_count,
            status: self.status,
            last_restart: self.last_restart,
            health_history: self.health_history@.map_values(|e: HealthHistoryEntry| e@),
            custom_check_result: opt_custom(self.custom_check_result),
        }
    }
}

/// Mathematical value of a [`NodeHealthHistoryEntry`].
pub struct NodeHistoryView {
    pub timestamp: i64,
    pub cpu_usage_centi: u64,
    pub memory_usage_centi: u64,
    pub disk_usage_centi: u64,
    pub network_status: NetworkHealthStatus,
    pub message: Option<Seq<char>>,
}

impl View for NodeHealthHistoryEntry {
    type V = NodeHistoryView;

    open spec fn view(&self) -> NodeHistoryView {
        NodeHistoryView {
            timestamp: self.timestamp,
            cpu_usage_centi: self.cpu_usage_centi,
            memory_usage_centi: self.memory_usage_centi,
            disk_usage_centi: self.disk_usage_centi,
            network_status: self.network_status,
            message: opt_text(self.message),
        }
    }
}

/// Mathematical value of a [`NodeHealth`].
pub struct NodeHealthView {
    pub node_id: Seq<char>,
    pub last_seen: i64,
    pub cpu_usage_centi: u64,
    pub memory_usage_centi: u64,
    pub disk_usage_centi: u64,
    pub network_status: NetworkHealthStatus,
    pub container_count: u32,
    pub health_history: Seq<NodeHistoryView>,
    pub consecutive_failures: u32,
    pub is_healthy: bool,
    pub last_failure: Option<i64>,
}

impl View for NodeHealth {
    type V = NodeHealthView;

    open spec fn view(&self) -> NodeHealthView {
        NodeHealthView {
            node_id: self.node_id@,
            last_seen: self.last_seen,
            cpu_usage_centi: self.cpu_usage_centi,
            memory_usage_centi: self.memory_usage_centi,
            disk_usage_centi: self.disk_usage_centi,
            network_status: self.network_status,
            container_count: self.container_count,
            health_history: self.health_history@.map_values(|e: NodeHealthHistoryEntry| e@),
            consecutive_failures: self.consecutive_failures,
            is_healthy: self.is_healthy,
            last_failure: self.last_failure,
        }
    }
}

/// Mathematical value of an [`AlertSource`].
pub enum AlertSourceView {
    Container(Seq<char>),
    Node(Seq<char>),
    System,
}

impl View for AlertSource {
    type V = AlertSourceView;

    open spec fn view(&self) -> AlertSourceView {
        match self {
            AlertSource::Container(id) => AlertSourceView::Container(id@),
            AlertSource::Node(id) => AlertSourceView::Node(id@),
            AlertSource::System => AlertSourceView::System,
        }
    }
}

/// Mathematical value of an [`Alert`].
pub struct AlertView {
    pub id: Seq<char>,
    pub timestamp: i64,
    pub severity: AlertSeverity,
    pub source: AlertSourceView,
    pub message: Seq<char>,
    pub status: AlertStatus,
    pub resolved_at: Option<i64>,
}

impl View for Alert {
    type V = AlertView;

    open spec fn view(&self) -> AlertView {
        AlertView {
            id: self.id@,
            timestamp: self.timestamp,
            severity: self.severity,
            source: self.source@,
            message: self.message@,
            status: self.status,
            resolved_at: self.resolved_at,
        }
    }
}

/// The views of a list of alerts.
pub open spec fn alerts_view(s: Seq<Alert>) -> Seq<AlertView> {
    s.map_values(|a: Alert| a@)
}

/// Copy of an optional string.
pub fn copy_opt_text(o: &Option<String>) -> (r: Option<String>)
    ensures
        opt_text(r) == opt_text(*o),
{
    match o {
        Some(s) => Some(s.clone()),
        None => None,
    }
}

/// Copy of an alert source.
pub fn copy_source(s: &AlertSource) -> (r: AlertSource)
    ensures
        r@ == s@,
{
    match s {
        AlertSource::Container(id) => AlertSource::Container(id.clone()),
        AlertSource::Node(id) => AlertSource::Node(id.clone()),
        AlertSource::System => AlertSource::System,
    }
}

/// Copy of an alert.
pub fn copy_alert(a: &Alert) -> (r: Alert)
    ensures
        r@ == a@,
{
    Alert {
        id: a.id.clone(),
        timestamp: a.timestamp,
        severity: a.severity,
        source: copy_source(&a.source),
        message: a.message.clone(),
        status: a.status,
        resolved_at: a.resolved_at,
    }
}

/// Copy of a custom-check result.
pub fn copy_custom(c: &CustomHealthCheckResult) -> (r: CustomHealthCheckResult)
    ensures
        r@ == c@,
{
    CustomHealthCheckResult { exit_code: c.exit_code, output: c.output.clone(), timestamp: c.timestamp, success: c.success }
}

/// Copy of a container health record.
pub fn copy_container_health(h: &ContainerHealth) -> (r: ContainerHealth)
    ensures
        r@ == h@,
{
    let mut hist: Vec<HealthHistoryEntry> = Vec::new();
    let mut i: usize = 0;
    while i < h.health_history.len()
        invariant
            i <= h.health_history.len(),
            hist@.len() == i,
            forall|j: int| 0 <= j < i ==> #[trigger] hist@[j]@ == h.health_history@[j]@,
        decreases h.health_history.len() - i,
    {
        let e = &h.health_history[i];
        hist.push(HealthHistoryEntry { timestamp: e.timestamp, status: e.status, message: copy_opt_text(&e.message) });
        i = i + 1;
    }
    let custom = match &h.custom_check_result {
        Some(c) => Some(copy_custom(c)),
        None => None,
    };
    let r = ContainerHealth {
        container_id: h.container_id.clone(),
        last_check: h.last_check,
        consecutive_failures: h.consecutive_failures,
        restart_count: h.restart_count,
        status: h.status,
        last_restart: h.last_restart,
        health_history: hist,
        custom_check_result: custom,
    };
    assert(r.health_history@.map_values(|e: HealthHistoryEntry| e@) =~= h.health_history@.map_values(|e: HealthHistoryEntry| e@));
    r
}

/// Copy of a node health record.
pub fn copy_node_health(h: &NodeHealth) -> (r: NodeHealth)
    ensures
        r@ == h@,
{
    let mut hist: Vec<NodeHealthHistoryEntry> = Vec::new();
    let mut i: usize = 0;
    while i < h.health_history.len()
        invariant
            i <= h.health_history.len(),
            hist@.len() == i,
            forall|j: int| 0 <= j < i ==> #[trigger] hist@[j]@ == h.health_history@[j]@,
        decreases h.health_history.len() - i,
    {
        let e = &h.health_history[i];
        hist.push(NodeHealthHistoryEntry {
            timestamp: e.timestamp,
            cpu_usage_centi: e.cpu_usage_centi,
            memory_usage_centi: e.memory_usage_centi,
            disk_usage_centi: e.disk_usage_centi,
            network_status: e.network_status,
            message: copy_opt_text(&e.message),
        });
        i = i + 1;
    }
    let r = NodeHealth {
        node_id: h.node_id.clone(),
        last_seen: h.last_seen,
        cpu_usage_centi: h.cpu_usage_centi,
        memory_usage_centi: h.memory_usage_centi,
        disk_usage_centi: h.disk_usage_centi,
        network_status: h.network_status,
        container_count: h.container_count,
        health_history: hist,
        consecutive_failures: h.consecutive_failures,
        is_healthy: h.is_healthy,
        last_failure: h.last_failure,
    };
    assert(r.health_history@.map_values(|e: NodeHealthHistoryEntry| e@) =~= h.health_history@.map_values(|e: NodeHealthHistoryEntry| e@));
    r
}


/// The part of `t` before its first hyphen (all of `t` if it has none).
pub open spec fn before_dash(t: Seq<char>) -> Seq<char> {
    match first_index_of(t, '-') {
        Some(i) => t.take(i),
        None => t,
    }
}

/// Identifier of an alert raised at `now`, made from a random token.
pub open spec fn alert_id(now: i64, token: Seq<char>) -> Seq<char> {
    "alert-"@ + signed_decimal(now as int) + seq!['-'] + before_dash(token)
}

/// An active alert as the monitor raises it.
pub open spec fn new_alert(id: Seq<char>, now: i64, severity: AlertSeverity, source: AlertSourceView, message: Seq<char>) -> AlertView {
    AlertView { id, timestamp: now, severity, source, message, status: AlertStatus::Active, resolved_at: None }
}

/// The health monitor's state: health records of containers and nodes, the
/// containers waiting for a restart, the alerts raised, and metric series by key.
pub struct HealthMonitor {
    pub config: HealthCheckConfig,
    pub container_health: Vec<(String, ContainerHealth)>,
    pub node_health: Vec<(String, NodeHealth)>,
    pub restart_queue: Vec<String>,
    pub is_running: bool,
    pub alerts: Vec<Alert>,
    pub metrics_history: Vec<(String, Vec<MetricDataPoint>)>,
}

/// Container health records by container id.
pub open spec fn health_map(m: &HealthMonitor) -> Map<Seq<char>, ContainerHealthView> {
    as_map(m.container_health@).map_values(|h: ContainerHealth| h@)
}

/// Node health records by node id.
pub open spec fn node_map(m: &HealthMonitor) -> Map<Seq<char>, NodeHealthView> {
    as_map(m.node_health@).map_values(|h: NodeHealth| h@)
}

/// The restart queue, in order.
pub open spec fn queue_view(m: &HealthMonitor) -> Seq<Seq<char>> {
    strings_view(m.restart_queue@)
}

/// Metric series by key.
pub open spec fn metrics_map(m: &HealthMonitor) -> Map<Seq<char>, Seq<MetricDataPoint>> {
    as_map(m.metrics_history@).map_values(|v: Vec<MetricDataPoint>| v@)
}

/// Every metric series is within the history limit.
pub open spec fn series_bounded(mm: Map<Seq<char>, Seq<MetricDataPoint>>) -> bool {
    forall|k: Seq<char>| #[trigger] mm.contains_key(k) ==> mm[k].len() <= METRIC_HISTORY_LIMIT
}

/// The tables have distinct keys and every metric series is within the limit.
pub open spec fn monitor_wf(m: &HealthMonitor) -> bool {
    &&& keys_distinct(m.container_health@)
    &&& keys_distinct(m.node_health@)
    &&& keys_distinct(m.metrics_history@)
    &&& series_bounded(metrics_map(m))
}

/// The last `METRIC_HISTORY_LIMIT` points of a series.
pub open spec fn trim_series(s: Seq<MetricDataPoint>) -> Seq<MetricDataPoint> {
    if s.len() > METRIC_HISTORY_LIMIT {
        s.subrange(s.len() - METRIC_HISTORY_LIMIT, s.len() as int)
    } else {
        s
    }
}

/// The series under `k` (empty if there is none).
pub open spec fn series_of(mm: Map<Seq<char>, Seq<MetricDataPoint>>, k: Seq<char>) -> Seq<MetricDataPoint> {
    if mm.contains_key(k) { mm[k] } else { Seq::empty() }
}

/// Appends a point to the series under `k`, keeping the last points only.
pub open spec fn add_point(mm: Map<Seq<char>, Seq<MetricDataPoint>>, k: Seq<char>, p: MetricDataPoint) -> Map<Seq<char>, Seq<MetricDataPoint>> {
    mm.insert(k, trim_series(series_of(mm, k).push(p)))
}

/// Key of a container metric series: `container:{id}.{suffix}`.
pub open spec fn container_key(id: Seq<char>, suffix: Seq<char>) -> Seq<char> {
    "container:"@ + id + "."@ + suffix
}

/// Key of a node metric series: `node:{id}.{suffix}`.
pub open spec fn node_key(id: Seq<char>, suffix: Seq<char>) -> Seq<char> {
    "node:"@ + id + "."@ + suffix
}

/// The metric series after recording a container's statistics at `t`.
pub open spec fn with_container_metrics(mm: Map<Seq<char>, Seq<MetricDataPoint>>, id: Seq<char>, s: ContainerStats, t: i64)
    -> Map<Seq<char>, Seq<MetricDataPoint>> {
    let m1 = add_point(mm, container_key(id, "cpu"@), MetricDataPoint { timestamp: t, value: s.cpu_usage_centi, metric_type: MetricType::CpuUsage });
    let m2 = add_point(m1, container_key(id, "memory"@), MetricDataPoint { timestamp: t, value: s.memory_usage, metric_type: MetricType::MemoryUsage });
    let m3 = add_point(m2, container_key(id, "net_rx"@), MetricDataPoint { timestamp: t, value: s.network_rx, metric_type: MetricType::NetworkRx });
    add_point(m3, container_key(id, "net_tx"@), MetricDataPoint { timestamp: t, value: s.network_tx, metric_type: MetricType::NetworkTx })
}

/// The metric series after recording a node sample at `t`.
pub open spec fn with_node_metrics(mm: Map<Seq<char>, Seq<MetricDataPoint>>, id: Seq<char>, n: NodeHealthView, t: i64)
    -> Map<Seq<char>, Seq<MetricDataPoint>> {
    let m1 = add_point(mm, node_key(id, "cpu"@), MetricDataPoint { timestamp: t, value: n.cpu_usage_centi, metric_type: MetricType::CpuUsage });
    let m2 = add_point(m1, node_key(id, "memory"@), MetricDataPoint { timestamp: t, value: n.memory_usage_centi, metric_type: MetricType::MemoryUsage });
    add_point(m2, node_key(id, "disk"@), MetricDataPoint { timestamp: t, value: n.disk_usage_centi, metric_type: MetricType::DiskUsage })
}

/// A copy of a metric series.
fn copy_series(v: &Vec<MetricDataPoint>) -> (r: Vec<MetricDataPoint>)
    ensures
        r@ == v@,
{
    let mut r: Vec<MetricDataPoint> = Vec::new();
    let mut i: usize = 0;
    while i < v.len()
        invariant
            i <= v.len(),
            r@ == v@.take(i as int),
        decreases v.len() - i,
    {
        r.push(v[i]);
        i = i + 1;
        assert(r@ =~= v@.take(i as int));
    }
    assert(v@.take(v@.len() as int) =~= v@);
    r
}

/// The last `METRIC_HISTORY_LIMIT` points of a series, as a new vector.
fn trimmed(v: Vec<MetricDataPoint>) -> (r: Vec<MetricDataPoint>)
    ensures
        r@ == trim_series(v@),
{
    if v.len() <= METRIC_HISTORY_LIMIT {
        return v;
    }
    let start = v.len() - METRIC_HISTORY_LIMIT;
    let mut r: Vec<MetricDataPoint> = Vec::new();
    let mut i: usize = start;
    while i < v.len()
        invariant
            start <= i <= v.len(),
            start == v.len() - METRIC_HISTORY_LIMIT,
            r@ == v@.subrange(start as int, i as int),
        decreases v.len() - i,
    {
        r.push(v[i]);
        i = i + 1;
        assert(r@ =~= v@.subrange(start as int, i as int));
    }
    r
}

impl HealthMonitor {
    /// A stopped monitor with the default settings and no records.
    pub fn new() -> (m: Self)
        ensures
            monitor_wf(&m),
            m.config.failure_threshold == 3,
            m.config.max_restart_attempts == 5,
            m.config.node_failure_threshold == 3,
            m.config.check_interval_seconds == 30,
            m.config.node_check_interval_seconds == 60,
            m.config.restart_delay_seconds == 5,
            m.config.custom_health_check_command is None,
            !m.is_running,
            m.container_health@.len() == 0,
            m.node_health@.len() == 0,
            m.restart_queue@.len() == 0,
            m.alerts@.len() == 0,
            m.metrics_history@.len() == 0,
    {
        Self::with_config(HealthCheckConfig::default())
    }

    /// A stopped monitor with the given settings and no records.
    pub fn with_config(config: HealthCheckConfig) -> (m: Self)
        ensures
            monitor_wf(&m),
            m.config == config,
            !m.is_running,
            m.container_health@.len() == 0,
            m.node_health@.len() == 0,
            m.restart_queue@.len() == 0,
            m.alerts@.len() == 0,
            m.metrics_history@.len() == 0,
    {
        let m = HealthMonitor {
            config,
            container_health: Vec::new(),
            node_health: Vec::new(),
            restart_queue: Vec::new(),
            is_running: false,
            alerts: Vec::new(),
            metrics_history: Vec::new(),
        };
        assert(metrics_map(&m) =~= Map::empty());
        m
    }

    /// Marks the monitor running. Returns whether it was stopped before, that is,
    /// whether the checking loops are to be started now.
    pub fn start(&mut self) -> (started: bool)
        ensures
            started == !old(self).is_running,
            final(self).is_running,
            final(self).config == old(self).config,
            final(self).container_health == old(self).container_health,
            final(self).node_health == old(self).node_health,
            final(self).restart_queue == old(self).restart_queue,
            final(self).alerts == old(self).alerts,
            final(self).metrics_history == old(self).metrics_history,
    {
        if self.is_running {
            return false;
        }
        self.is_running = true;
        true
    }

    /// Marks the monitor stopped; the checking loops end at their next turn.
    pub fn stop(&mut self)
        ensures
            !final(self).is_running,
            final(self).config == old(self).config,
            final(self).container_health == old(self).container_health,
            final(self).node_health == old(self).node_health,
            final(self).restart_queue == old(self).restart_queue,
            final(self).alerts == old(self).alerts,
            final(self).metrics_history == old(self).metrics_history,
    {
        self.is_running = false;
    }

    /// Appends a point to the series under `key`, keeping the last points only.
    fn add_point(&mut self, key: String, p: MetricDataPoint)
        requires
            monitor_wf(old(self)),
        ensures
            monitor_wf(final(self)),
            metrics_map(final(self)) == add_point(metrics_map(old(self)), key@, p),
            final(self).config == old(self).config,
            final(self).container_health == old(self).container_health,
            final(self).node_health == old(self).node_health,
            final(self).restart_queue == old(self).restart_queue,
            final(self).alerts == old(self).alerts,
            final(self).is_running == old(self).is_running,
    {
        let ghost mm = metrics_map(old(self));
        let pos = find_key(&self.metrics_history, key.as_str());
        proof {
            lemma_key_pos(old(self).metrics_history@, key@);
        }
        let mut series = match pos {
            Some(i) => {
                proof {
                    lemma_as_map_index(old(self).metrics_history@, i as int);
                }
                copy_series(&self.metrics_history[i].1)
            },
            None => Vec::new(),
        };
        assert(series@ == series_of(mm, key@));
        series.push(p);
        let series = trimmed(series);
        let ghost sv = series@;
        insert_key(&mut self.metrics_history, key, series);
        assert(metrics_map(self) =~= mm.insert(key@, sv));
        assert forall|k: Seq<char>| #[trigger] metrics_map(self).contains_key(k) implies metrics_map(self)[k].len() <= METRIC_HISTORY_LIMIT by {
            if k != key@ {
                assert(mm.contains_key(k));
            }
        }
    }

    /// Records a container's statistics at `t` in the metric series.
    pub fn store_container_metrics(&mut self, container_id: &str, stats: &ContainerStats, t: i64)
        requires
            monitor_wf(old(self)),
        ensures
            monitor_wf(final(self)),
            metrics_map(final(self)) == with_container_metrics(metrics_map(old(self)), container_id@, *stats, t),
            final(self).config == old(self).config,
            final(self).container_health == old(self).container_health,
            final(self).node_health == old(self).node_health,
            final(self).restart_queue == old(self).restart_queue,
            final(self).alerts == old(self).alerts,
            final(self).is_running == old(self).is_running,
    {
        let mut k = owned("container:");
        push_str(&mut k, container_id);
        push_str(&mut k, ".");
        push_str(&mut k, "cpu");
        self.add_point(k, MetricDataPoint { timestamp: t, value: stats.cpu_usage_centi, metric_type: MetricType::CpuUsage });
        let mut k = owned("container:");
        push_str(&mut k, container_id);
        push_str(&mut k, ".");
        push_str(&mut k, "memory");
        self.add_point(k, MetricDataPoint { timestamp: t, value: stats.memory_usage, metric_type: MetricType::MemoryUsage });
        let mut k = owned("container:");
        push_str(&mut k, container_id);
        push_str(&mut k, ".");
        push_str(&mut k, "net_rx");
        self.add_point(k, MetricDataPoint { timestamp: t, value: stats.network_rx, metric_type: MetricType::NetworkRx });
        let mut k = owned("container:");
        push_str(&mut k, container_id);
        push_str(&mut k, ".");
        push_str(&mut k, "net_tx");
        self.add_point(k, MetricDataPoint { timestamp: t, value: stats.network_tx, metric_type: MetricType::NetworkTx });
    }

    /// Records a node sample at `t` in the metric series.
    pub fn store_node_metrics(&mut self, node_id: &str, info: &NodeHealth, t: i64)
        requires
            monitor_wf(old(self)),
        ensures
            monitor_wf(final(self)),
            metrics_map(final(self)) == with_node_metrics(metrics_map(old(self)), node_id@, info@, t),
            final(self).config == old(self).config,
            final(self).container_health == old(self).container_health,
            final(self).node_health == old(self).node_health,
            final(self).restart_queue == old(self).restart_queue,
            final(self).alerts == old(self).alerts,
            final(self).is_running == old(self).is_running,
    {
        let mut k = owned("node:");
        push_str(&mut k, node_id);
        push_str(&mut k, ".");
        push_str(&mut k, "cpu");
        self.add_point(k, MetricDataPoint { timestamp: t, value: info.cpu_usage_centi, metric_type: MetricType::CpuUsage });
        let mut k = owned("node:");
        push_str(&mut k, node_id);
        push_str(&mut k, ".");
        push_str(&mut k, "memory");
        self.add_point(k, MetricDataPoint { timestamp: t, value: info.memory_usage_centi, metric_type: MetricType::MemoryUsage });
        let mut k = owned("node:");
        push_str(&mut k, node_id);
        push_str(&mut k, ".");
        push_str(&mut k, "disk");
        self.add_point(k, MetricDataPoint { timestamp: t, value: info.disk_usage_centi, metric_type: MetricType::DiskUsage });
    }

    /// Raises an active alert at `now` whose identifier is made from `token`.
    pub fn create_alert_with_token(&mut self, severity: AlertSeverity, source: AlertSource, message: String, now: i64, token: &str)
        ensures
            alerts_view(final(self).alerts@) == alerts_view(old(self).alerts@).push(
                new_alert(alert_id(now, token@), now, severity, source@, message@)),
            final(self).config == old(self).config,
            final(self).container_health == old(self).container_health,
            final(self).node_health == old(self).node_health,
            final(self).restart_queue == old(self).restart_queue,
            final(self).metrics_history == old(self).metrics_history,
            final(self).is_running == old(self).is_running,
    {
        let tv = chars_of(token);
        proof {
            crate::text::lemma_first_index_of(token@, '-');
        }
        let head = match find_char(&tv, '-') {
            Some(i) => slice_chars(&tv, 0, i),
            None => tv,
        };
        assert(head@ =~= before_dash(token@));
        let mut id = owned("alert-");
        push_signed_decimal(&mut id, now);
        push_char(&mut id, '-');
        let hs = string_of(&head);
        push_str(&mut id, hs.as_str());
        assert(id@ =~= alert_id(now, token@));
        let a = Alert {
            id,
            timestamp: now,
            severity,
            source,
            message,
            status: AlertStatus::Active,
            resolved_at: None,
        };
        let ghost av = a@;
        self.alerts.push(a);
        assert(alerts_view(self.alerts@) =~= alerts_view(old(self).alerts@).push(av));
    }

    /// Raises an active alert at `now` under a fresh random identifier
    /// `alert-{now}-{first group of a random UUID}`.
    pub fn create_alert(&mut self, severity: AlertSeverity, source: AlertSource, message: String, now: i64)
        ensures
            exists|token: Seq<char>| alerts_view(final(self).alerts@) == #[trigger] alerts_view(old(self).alerts@).push(
                new_alert(alert_id(now, token), now, severity, source@, message@)),
            final(self).config == old(self).config,
            final(self).container_health == old(self).container_health,
            final(self).node_health == old(self).node_health,
            final(self).restart_queue == old(self).restart_queue,
            final(self).metrics_history == old(self).metrics_history,
            final(self).is_running == old(self).is_running,
    {
        let token = new_uuid();
        let ghost src = source@;
        let ghost msg = message@;
        self.create_alert_with_token(severity, source, message, now, token.as_str());
        assert(alerts_view(self.alerts@) == alerts_view(old(self).alerts@).push(
            new_alert(alert_id(now, token@), now, severity, src, msg)));
    }
}


/// A container's first health record, made at `now`.
pub open spec fn fresh_health(id: Seq<char>, now: i64) -> ContainerHealthView {
    ContainerHealthView {
        container_id: id,
        last_check: now,
        consecutive_failures: 0,
        restart_count: 0,
        status: HealthStatus::Healthy,
        last_restart: None,
        health_history: Seq::empty(),
        custom_check_result: None,
    }
}

/// A history with `e` appended, dropping the oldest entry beyond the limit.
pub open spec fn push_history<T>(h: Seq<T>, e: T) -> Seq<T> {
    if h.len() + 1 > HISTORY_LIMIT { h.push(e).drop_first() } else { h.push(e) }
}

/// The status a check gives a container with `failures` failures so far.
pub open spec fn check_status(failures: u32, healthy: bool, threshold: u32) -> HealthStatus {
    if healthy {
        HealthStatus::Healthy
    } else if failures + 1 >= threshold {
        HealthStatus::Failed
    } else {
        HealthStatus::Unhealthy
    }
}

/// The record of container `id` before a check at `now`.
pub open spec fn record_before(hm: Map<Seq<char>, ContainerHealthView>, id: Seq<char>, now: i64) -> ContainerHealthView {
    if hm.contains_key(id) { hm[id] } else { fresh_health(id, now) }
}

/// The record after a check at `now`: the failure count is reset by a healthy
/// check and grows by one otherwise, and the history gains the check's status.
pub open spec fn after_check(h: ContainerHealthView, healthy: bool, custom: Option<CustomCheckView>, now: i64, threshold: u32)
    -> ContainerHealthView {
    let st = check_status(h.consecutive_failures, healthy, threshold);
    ContainerHealthView {
        container_id: h.container_id,
        last_check: now,
        consecutive_failures: if healthy { 0 } else { (h.consecutive_failures + 1) as u32 },
        restart_count: h.restart_count,
        status: st,
        last_restart: h.last_restart,
        health_history: push_history(h.health_history, HistoryView { timestamp: now, status: st, message: None }),
        custom_check_result: if custom is Some { custom } else { h.custom_check_result },
    }
}

/// The check reaches the failure threshold with restarts left.
pub open spec fn marks_restart(h: ContainerHealthView, healthy: bool, threshold: u32, max_restarts: u32) -> bool {
    !healthy && h.consecutive_failures + 1 >= threshold && h.restart_count < max_restarts
}

/// The check reaches the failure threshold with no restarts left.
pub open spec fn exceeds_restarts(h: ContainerHealthView, healthy: bool, threshold: u32, max_restarts: u32) -> bool {
    !healthy && h.consecutive_failures + 1 >= threshold && h.restart_count >= max_restarts
}

/// Message of the alert for a container marked for restart.
pub open spec fn restart_alert_text(id: Seq<char>) -> Seq<char> {
    "Container "@ + id + " health check failed, marked for restart"@
}

/// Message of the alert for a container out of restarts.
pub open spec fn exceeded_alert_text(id: Seq<char>, max_restarts: u32) -> Seq<char> {
    "Container "@ + id + " has exceeded maximum restart attempts ("@ + decimal(max_restarts as nat) + ")"@
}

/// The observation of one container in a checking round.
pub struct ContainerCheck {
    pub container_id: String,
    pub is_healthy: bool,
    pub custom_result: Option<CustomHealthCheckResult>,
    pub stats: Option<ContainerStats>,
}

/// Mathematical value of a [`ContainerCheck`].
pub struct ContainerCheckView {
    pub id: Seq<char>,
    pub healthy: bool,
    pub custom: Option<CustomCheckView>,
    pub stats: Option<ContainerStats>,
}

impl View for ContainerCheck {
    type V = ContainerCheckView;

    open spec fn view(&self) -> ContainerCheckView {
        ContainerCheckView { id: self.container_id@, healthy: self.is_healthy, custom: opt_custom(self.custom_result), stats: self.stats }
    }
}

/// The views of a list of checks.
pub open spec fn check_views(s: Seq<ContainerCheck>) -> Seq<ContainerCheckView> {
    s.map_values(|c: ContainerCheck| c@)
}

/// What a container check changes: records, restart queue, alerts, metric series.
pub struct CheckState {
    pub health: Map<Seq<char>, ContainerHealthView>,
    pub queue: Seq<Seq<char>>,
    pub alerts: Seq<AlertView>,
    pub metrics: Map<Seq<char>, Seq<MetricDataPoint>>,
}

/// The part of the monitor that container checks change.
pub open spec fn check_state(m: &HealthMonitor) -> CheckState {
    CheckState { health: health_map(m), queue: queue_view(m), alerts: alerts_view(m.alerts@), metrics: metrics_map(m) }
}

/// One container check at `now`, with `token` for the identifier of an alert it raises.
pub open spec fn container_check_step(st: CheckState, threshold: u32, max_restarts: u32, c: ContainerCheckView, now: i64,
    token: Seq<char>) -> CheckState {
    let h = record_before(st.health, c.id, now);
    let queue_it = marks_restart(h, c.healthy, threshold, max_restarts) && !st.queue.contains(c.id);
    CheckState {
        health: st.health.insert(c.id, after_check(h, c.healthy, c.custom, now, threshold)),
        queue: if queue_it { st.queue.push(c.id) } else { st.queue },
        alerts: if queue_it {
            st.alerts.push(new_alert(alert_id(now, token), now, AlertSeverity::Warning, AlertSourceView::Container(c.id),
                restart_alert_text(c.id)))
        } else if exceeds_restarts(h, c.healthy, threshold, max_restarts) {
            st.alerts.push(new_alert(alert_id(now, token), now, AlertSeverity::Critical, AlertSourceView::Container(c.id),
                exceeded_alert_text(c.id, max_restarts)))
        } else {
            st.alerts
        },
        metrics: match c.stats {
            Some(s) => with_container_metrics(st.metrics, c.id, s, now),
            None => st.metrics,
        },
    }
}

/// A checking round: the checks in order, the `i`-th alert token for the `i`-th check.
pub open spec fn container_checks(st: CheckState, threshold: u32, max_restarts: u32, cs: Seq<ContainerCheckView>, now: i64,
    tokens: Seq<Seq<char>>) -> CheckState
    decreases cs.len(),
{
    if cs.len() == 0 {
        st
    } else {
        container_check_step(container_checks(st, threshold, max_restarts, cs.drop_last(), now, tokens.take(cs.len() - 1)),
            threshold, max_restarts, cs.last(), now, tokens[cs.len() - 1])
    }
}

/// Whether `id` is in the list.
pub fn contains_string(v: &Vec<String>, id: &str) -> (r: bool)
    ensures
        r == strings_view(v@).contains(id@),
{
    let mut i: usize = 0;
    while i < v.len()
        invariant
            i <= v.len(),
            forall|j: int| 0 <= j < i ==> v@[j]@ != id@,
        decreases v.len() - i,
    {
        if str_eq(v[i].as_str(), id) {
            assert(strings_view(v@)[i as int] == id@);
            return true;
        }
        i = i + 1;
    }
    assert forall|j: int| 0 <= j < strings_view(v@).len() implies strings_view(v@)[j] != id@ by {
        assert(strings_view(v@)[j] == v@[j]@);
    }
    false
}

/// A history with `e` appended, dropping the oldest entry beyond the limit.
fn push_entry(hist: &mut Vec<HealthHistoryEntry>, e: HealthHistoryEntry)
    ensures
        final(hist)@.map_values(|x: HealthHistoryEntry| x@) == push_history(old(hist)@.map_values(|x: HealthHistoryEntry| x@), e@),
{
    let ghost ev = e@;
    hist.push(e);
    assert(hist@.map_values(|x: HealthHistoryEntry| x@) =~= old(hist)@.map_values(|x: HealthHistoryEntry| x@).push(ev));
    if hist.len() > HISTORY_LIMIT {
        let ghost before = hist@;
        hist.remove(0);
        assert(hist@.map_values(|x: HealthHistoryEntry| x@) =~= before.map_values(|x: HealthHistoryEntry| x@).drop_first());
    }
}

impl HealthMonitor {
    /// The record of `id` as it stands before a check at `now`.
    fn record_for_check(&self, id: &str, now: i64) -> (h: ContainerHealth)
        requires
            monitor_wf(self),
        ensures
            h@ == record_before(health_map(self), id@, now),
    {
        let pos = find_key(&self.container_health, id);
        proof {
            lemma_key_pos(self.container_health@, id@);
        }
        match pos {
            Some(i) => {
                proof {
                    lemma_as_map_index(self.container_health@, i as int);
                }
                copy_container_health(&self.container_health[i].1)
            },
            None => {
                let h = ContainerHealth {
                    container_id: owned(id),
                    last_check: now,
                    consecutive_failures: 0,
                    restart_count: 0,
                    status: HealthStatus::Healthy,
                    last_restart: None,
                    health_history: Vec::new(),
                    custom_check_result: None,
                };
                assert(h@.health_history =~= Seq::<HistoryView>::empty());
                h
            },
        }
    }

    /// Queues a restart of a failing container or raises the alert that its
    /// restarts are used up, as the check with record `h` before it calls for.
    fn schedule_after_check(&mut self, id: &str, failures: u32, restarts: u32, healthy: bool, now: i64, token: &str)
        requires
            !healthy ==> failures < u32::MAX,
        ensures
            ({
                let thr = old(self).config.failure_threshold;
                let max = old(self).config.max_restart_attempts;
                let queue_it = !healthy && failures + 1 >= thr && restarts < max && !queue_view(old(self)).contains(id@);
                &&& queue_view(final(self)) == (if queue_it { queue_view(old(self)).push(id@) } else { queue_view(old(self)) })
                &&& alerts_view(final(self).alerts@) == (if queue_it {
                        alerts_view(old(self).alerts@).push(new_alert(alert_id(now, token@), now, AlertSeverity::Warning,
                            AlertSourceView::Container(id@), restart_alert_text(id@)))
                    } else if !healthy && failures + 1 >= thr && restarts >= max {
                        alerts_view(old(self).alerts@).push(new_alert(alert_id(now, token@), now, AlertSeverity::Critical,
                            AlertSourceView::Container(id@), exceeded_alert_text(id@, max)))
                    } else {
                        alerts_view(old(self).alerts@)
                    })
            }),
            final(self).config == old(self).config,
            final(self).container_health == old(self).container_health,
            final(self).node_health == old(self).node_health,
            final(self).metrics_history == old(self).metrics_history,
            final(self).is_running == old(self).is_running,
    {
        let thr = self.config.failure_threshold;
        let max = self.config.max_restart_attempts;
        if !healthy && failures + 1 >= thr {
            if restarts < max {
                if !contains_string(&self.restart_queue, id) {
                    let ghost q0 = self.restart_queue@;
                    self.restart_queue.push(owned(id));
                    assert(strings_view(self.restart_queue@) =~= strings_view(q0).push(id@));
                    let mut msg = owned("Container ");
                    push_str(&mut msg, id);
                    push_str(&mut msg, " health check failed, marked for restart");
                    self.create_alert_with_token(AlertSeverity::Warning, AlertSource::Container(owned(id)), msg, now, token);
                }
            } else {
                let mut msg = owned("Container ");
                push_str(&mut msg, id);
                push_str(&mut msg, " has exceeded maximum restart attempts (");
                push_decimal(&mut msg, max as u64);
                push_str(&mut msg, ")");
                self.create_alert_with_token(AlertSeverity::Critical, AlertSource::Container(owned(id)), msg, now, token);
            }
        }
    }
}


impl HealthMonitor {
    /// Applies the observation of one container at `now` (see
    /// [`container_check_step`]); `token` names an alert it raises.
    pub fn record_container_check(&mut self, check: ContainerCheck, now: i64, token: &str)
        requires
            monitor_wf(old(self)),
            !check.is_healthy ==> record_before(health_map(old(self)), check.container_id@, now).consecutive_failures < u32::MAX,
        ensures
            monitor_wf(final(self)),
            check_state(final(self)) == container_check_step(check_state(old(self)), old(self).config.failure_threshold,
                old(self).config.max_restart_attempts, check@, now, token@),
            final(self).config == old(self).config,
            final(self).node_health == old(self).node_health,
            final(self).is_running == old(self).is_running,
    {
        let ghost st = check_state(old(self));
        let ghost cv = check@;
        let ContainerCheck { container_id: id, is_healthy: healthy, custom_result, stats } = check;
        let thr = self.config.failure_threshold;
        let mut h = self.record_for_check(id.as_str(), now);
        let ghost h0 = h@;
        let failures = h.consecutive_failures;
        let restarts = h.restart_count;
        let status = if healthy {
            HealthStatus::Healthy
        } else if failures + 1 >= thr {
            HealthStatus::Failed
        } else {
            HealthStatus::Unhealthy
        };
        h.last_check = now;
        match custom_result {
            Some(c) => {
                h.custom_check_result = Some(c);
            },
            None => {},
        }
        push_entry(&mut h.health_history, HealthHistoryEntry { timestamp: now, status, message: None });
        if healthy {
            h.consecutive_failures = 0;
        } else {
            h.consecutive_failures = failures + 1;
        }
        h.status = status;
        assert(h@ == after_check(h0, healthy, cv.custom, now, thr));
        let ghost hv = h@;
        insert_key(&mut self.container_health, id.clone(), h);
        assert(health_map(self) =~= st.health.insert(id@, hv));
        match stats {
            Some(s) => {
                self.store_container_metrics(id.as_str(), &s, now);
            },
            None => {},
        }
        self.schedule_after_check(id.as_str(), failures, restarts, healthy, now, token);
    }

    /// Applies one checking round at `now`: each observation in order, as
    /// [`HealthMonitor::record_container_check`] does, each raised alert under a fresh
    /// random identifier.
    pub fn check_container_health(&mut self, checks: Vec<ContainerCheck>, now: i64)
        requires
            monitor_wf(old(self)),
            checks@.len() < u32::MAX,
            forall|k: Seq<char>| #[trigger] health_map(old(self)).contains_key(k)
                ==> health_map(old(self))[k].consecutive_failures + checks@.len() < u32::MAX,
        ensures
            monitor_wf(final(self)),
            exists|tokens: Seq<Seq<char>>| tokens.len() == checks@.len() && check_state(final(self)) == #[trigger] container_checks(
                check_state(old(self)), old(self).config.failure_threshold, old(self).config.max_restart_attempts,
                check_views(checks@), now, tokens),
            final(self).config == old(self).config,
            final(self).node_health == old(self).node_health,
            final(self).is_running == old(self).is_running,
    {
        let ghost st0 = check_state(old(self));
        let ghost cvs = check_views(checks@);
        let ghost mut tokens: Seq<Seq<char>> = Seq::empty();
        let thr = self.config.failure_threshold;
        let max = self.config.max_restart_attempts;
        let n = checks.len();
        let mut checks = checks;
        let mut i: usize = 0;
        while i < n
            invariant
                i <= n,
                n == cvs.len(),
                n < u32::MAX,
                checks@.len() == n - i,
                forall|j: int| 0 <= j < n - i ==> #[trigger] checks@[j]@ == cvs[i + j],
                monitor_wf(self),
                tokens.len() == i,
                check_state(self) == container_checks(st0, thr, max, cvs.take(i as int), now, tokens),
                self.config == old(self).config,
                thr == old(self).config.failure_threshold,
                max == old(self).config.max_restart_attempts,
                self.node_health == old(self).node_health,
                self.is_running == old(self).is_running,
                forall|k: Seq<char>| #[trigger] health_map(self).contains_key(k)
                    ==> health_map(self)[k].consecutive_failures + (n - i) < u32::MAX,
            decreases n - i,
        {
            let ghost pre = checks@;
            let c = checks.remove(0);
            assert(c@ == cvs[i as int]);
            assert forall|j: int| 0 <= j < n - i - 1 implies #[trigger] checks@[j]@ == cvs[i + 1 + j] by {
                assert(checks@[j] == pre[j + 1]);
            }
            let token = new_uuid();
            let ghost before = check_state(self);
            let ghost hm = health_map(self);
            proof {
                if !c.is_healthy && hm.contains_key(c.container_id@) {
                    assert(hm[c.container_id@].consecutive_failures + (n - i) < u32::MAX);
                }
            }
            self.record_container_check(c, now, token.as_str());
            proof {
                let t_old = tokens;
                tokens = tokens.push(token@);
                assert(cvs.take(i + 1).drop_last() =~= cvs.take(i as int));
                assert(tokens.take(i as int) =~= t_old);
                assert(cvs.take(i + 1).last() == cvs[i as int]);
                assert(check_state(self) == container_checks(st0, thr, max, cvs.take(i + 1), now, tokens));
                let id = cvs[i as int].id;
                let h = record_before(hm, id, now);
                assert(health_map(self) == hm.insert(id, after_check(h, cvs[i as int].healthy, cvs[i as int].custom, now, thr)));
                assert forall|k: Seq<char>| #[trigger] health_map(self).contains_key(k)
                    implies health_map(self)[k].consecutive_failures + (n - i - 1) < u32::MAX by {
                    if k != id {
                        assert(hm.contains_key(k));
                    } else if hm.contains_key(id) {
                        assert(hm[id].consecutive_failures + (n - i) < u32::MAX);
                    }
                }
            }
            i = i + 1;
        }
        assert(cvs.take(n as int) =~= cvs);
    }
}


/// The simulated custom check passes unless the byte sum of the container id,
/// taken modulo 256, is a multiple of five.
pub open spec fn custom_check_passes(id: Seq<char>) -> bool {
    (byte_sum(vstd::utf8::encode_utf8(id)) % 256) % 5 != 0
}

/// The result of the simulated custom check of container `id` at `now`.
pub open spec fn custom_check_result(id: Seq<char>, now: i64) -> CustomCheckView {
    let ok = custom_check_passes(id);
    CustomCheckView {
        exit_code: if ok { 0 } else { 1 },
        output: if ok { "Health check passed"@ } else { "Health check failed"@ },
        timestamp: now,
        success: ok,
    }
}

/// Runs the custom health check of a container. The command is not executed:
/// the outcome is derived from the container id (see [`custom_check_passes`]).
pub fn run_custom_health_check(container_id: &str, command: &str, now: i64) -> (r: Option<CustomHealthCheckResult>)
    ensures
        r matches Some(c) && c@ == custom_check_result(container_id@, now),
{
    let bytes = utf8_bytes(container_id);
    let mut acc: u8 = 0;
    let mut i: usize = 0;
    while i < bytes.len()
        invariant
            i <= bytes.len(),
            acc == byte_sum(bytes@.take(i as int)) % 256,
        decreases bytes.len() - i,
    {
        let b = bytes[i];
        let ghost prev = byte_sum(bytes@.take(i as int));
        assert(bytes@.take(i + 1).drop_last() =~= bytes@.take(i as int));
        acc = acc.wrapping_add(b);
        assert(byte_sum(bytes@.take(i + 1)) == prev + b);
        assert(acc == (prev + b) % 256) by {
            assert(acc == (if (prev % 256) + b > 255 { (prev % 256) + b - 256 } else { (prev % 256) + b }));
        }
        i = i + 1;
    }
    assert(bytes@.take(bytes@.len() as int) =~= bytes@);
    let success = acc % 5 != 0;
    Some(CustomHealthCheckResult {
        exit_code: if success { 0 } else { 1 },
        output: if success { owned("Health check passed") } else { owned("Health check failed") },
        timestamp: now,
        success,
    })
}

/// Recent statistics show a live container: updated within five minutes, CPU
/// below 100 % and some memory in use.
pub open spec fn metrics_look_healthy(stats: Option<ContainerStats>, now: i64) -> bool {
    match stats {
        Some(s) => now - s.last_updated < 300 && s.cpu_usage_centi < 10000 && s.memory_usage > 0,
        None => false,
    }
}

/// The health verdict on a container, with the custom-check result when a custom
/// command is configured: a running container passes its custom check if there is
/// one, else its configured check if that is decided, else its statistics; stopped
/// and failed containers are unhealthy; pending and restarting ones count as healthy.
pub open spec fn container_verdict(status: ContainerStatus, has_command: bool, id: Seq<char>, probe: Option<HealthCheckStatus>,
    stats: Option<ContainerStats>, now: i64) -> (bool, Option<CustomCheckView>) {
    match status {
        ContainerStatus::Running => {
            if has_command {
                let c = custom_check_result(id, now);
                (c.success, Some(c))
            } else {
                match probe {
                    Some(HealthCheckStatus::Healthy) => (true, None),
                    Some(HealthCheckStatus::Unhealthy) => (false, None),
                    _ => (metrics_look_healthy(stats, now), None),
                }
            }
        },
        ContainerStatus::Stopped | ContainerStatus::Failed => (false, None),
        ContainerStatus::Pending | ContainerStatus::Restarting => (true, None),
    }
}

/// Whether a verdict falls back to the statistics.
pub open spec fn verdict_reads_stats(status: ContainerStatus, has_command: bool, probe: Option<HealthCheckStatus>) -> bool {
    status == ContainerStatus::Running && !has_command
        && !(probe == Some(HealthCheckStatus::Healthy) || probe == Some(HealthCheckStatus::Unhealthy))
}

impl HealthMonitor {
    /// The verdict on `container` (see [`container_verdict`]), given the outcome of
    /// its configured health check (`None` when there is none) and its statistics.
    pub fn check_container_status(&self, container: &Container, probe: Option<HealthCheckStatus>, stats: Option<ContainerStats>,
        now: i64) -> (r: (bool, Option<CustomHealthCheckResult>))
        requires
            verdict_reads_stats(container.status, self.config.custom_health_check_command is Some, probe)
                ==> (stats matches Some(s) ==> i64::MIN <= now - s.last_updated <= i64::MAX),
        ensures
            (r.0, opt_custom(r.1)) == container_verdict(container.status, self.config.custom_health_check_command is Some,
                container.id@, probe, stats, now),
    {
        match container.status {
            ContainerStatus::Running => {
                match &self.config.custom_health_check_command {
                    Some(cmd) => {
                        let res = run_custom_health_check(container.id.as_str(), cmd.as_str(), now);
                        match res {
                            Some(c) => {
                                return (c.success, Some(c));
                            },
                            None => {},
                        }
                    },
                    None => {},
                }
                match probe {
                    Some(HealthCheckStatus::Healthy) => {
                        return (true, None);
                    },
                    Some(HealthCheckStatus::Unhealthy) => {
                        return (false, None);
                    },
                    _ => {},
                }
                match stats {
                    Some(s) => {
                        if now - s.last_updated < 300 {
                            if s.cpu_usage_centi < 10000 && s.memory_usage > 0 {
                                return (true, None);
                            }
                        }
                    },
                    None => {},
                }
                (false, None)
            },
            ContainerStatus::Stopped | ContainerStatus::Failed => (false, None),
            ContainerStatus::Pending | ContainerStatus::Restarting => (true, None),
        }
    }

    /// Queues a restart of `container_id` unless it is already queued.
    pub fn force_restart_container(&mut self, container_id: &str)
        ensures
            queue_view(final(self)) == (if queue_view(old(self)).contains(container_id@) { queue_view(old(self)) }
                else { queue_view(old(self)).push(container_id@) }),
            final(self).config == old(self).config,
            final(self).container_health == old(self).container_health,
            final(self).node_health == old(self).node_health,
            final(self).alerts == old(self).alerts,
            final(self).metrics_history == old(self).metrics_history,
            final(self).is_running == old(self).is_running,
    {
        if !contains_string(&self.restart_queue, container_id) {
            let ghost q0 = self.restart_queue@;
            self.restart_queue.push(owned(container_id));
            assert(strings_view(self.restart_queue@) =~= strings_view(q0).push(container_id@));
        }
    }

    /// Empties the restart queue, returning its entries in order.
    pub fn take_restart_queue(&mut self) -> (r: Vec<String>)
        ensures
            strings_view(r@) == queue_view(old(self)),
            final(self).restart_queue@.len() == 0,
            final(self).config == old(self).config,
            final(self).container_health == old(self).container_health,
            final(self).node_health == old(self).node_health,
            final(self).alerts == old(self).alerts,
            final(self).metrics_history == old(self).metrics_history,
            final(self).is_running == old(self).is_running,
    {
        let mut r: Vec<String> = Vec::new();
        std::mem::swap(&mut r, &mut self.restart_queue);
        r
    }

    /// Sets the record of `id` to `h`.
    fn set_record(&mut self, id: &str, h: ContainerHealth)
        requires
            monitor_wf(old(self)),
        ensures
            monitor_wf(final(self)),
            health_map(final(self)) == health_map(old(self)).insert(id@, h@),
            final(self).config == old(self).config,
            final(self).node_health == old(self).node_health,
            final(self).restart_queue == old(self).restart_queue,
            final(self).alerts == old(self).alerts,
            final(self).metrics_history == old(self).metrics_history,
            final(self).is_running == old(self).is_running,
    {
        let ghost hv = h@;
        insert_key(&mut self.container_health, owned(id), h);
        assert(health_map(self) =~= health_map(old(self)).insert(id@, hv));
    }

    /// The record of `id`, if there is one.
    pub fn get_container_health(&self, container_id: &str) -> (r: Option<ContainerHealth>)
        requires
            monitor_wf(self),
        ensures
            match r {
                Some(h) => health_map(self).contains_key(container_id@) && h@ == health_map(self)[container_id@],
                None => !health_map(self).contains_key(container_id@),
            },
    {
        let pos = find_key(&self.container_health, container_id);
        proof {
            lemma_key_pos(self.container_health@, container_id@);
        }
        match pos {
            Some(i) => {
                proof {
                    lemma_as_map_index(self.container_health@, i as int);
                }
                Some(copy_container_health(&self.container_health[i].1))
            },
            None => None,
        }
    }

    /// Marks a restart of `container_id` begun at `now`: its record, if any, is
    /// restarting, counts one more restart and remembers the time.
    pub fn begin_restart(&mut self, container_id: &str, now: i64)
        requires
            monitor_wf(old(self)),
            health_map(old(self)).contains_key(container_id@) ==> health_map(old(self))[container_id@].restart_count < u32::MAX,
        ensures
            monitor_wf(final(self)),
            health_map(final(self)) == (if health_map(old(self)).contains_key(container_id@) {
                let h = health_map(old(self))[container_id@];
                health_map(old(self)).insert(container_id@, ContainerHealthView {
                    status: HealthStatus::Restarting,
                    restart_count: (h.restart_count + 1) as u32,
                    last_restart: Some(now),
                    ..h
                })
            } else {
                health_map(old(self))
            }),
            final(self).config == old(self).config,
            final(self).node_health == old(self).node_health,
            final(self).restart_queue == old(self).restart_queue,
            final(self).alerts == old(self).alerts,
            final(self).metrics_history == old(self).metrics_history,
            final(self).is_running == old(self).is_running,
    {
        match self.get_container_health(container_id) {
            Some(mut h) => {
                h.status = HealthStatus::Restarting;
                h.restart_count = h.restart_count + 1;
                h.last_restart = Some(now);
                self.set_record(container_id, h);
            },
            None => {},
        }
    }

    /// Records the outcome of a restart of `container_id`: on success its record, if
    /// any, is healthy with no failures; otherwise it is failed.
    pub fn finish_restart(&mut self, container_id: &str, success: bool)
        requires
            monitor_wf(old(self)),
        ensures
            monitor_wf(final(self)),
            health_map(final(self)) == (if health_map(old(self)).contains_key(container_id@) {
                let h = health_map(old(self))[container_id@];
                health_map(old(self)).insert(container_id@, if success {
                    ContainerHealthView { status: HealthStatus::Healthy, consecutive_failures: 0, ..h }
                } else {
                    ContainerHealthView { status: HealthStatus::Failed, ..h }
                })
            } else {
                health_map(old(self))
            }),
            final(self).config == old(self).config,
            final(self).node_health == old(self).node_health,
            final(self).restart_queue == old(self).restart_queue,
            final(self).alerts == old(self).alerts,
            final(self).metrics_history == old(self).metrics_history,
            final(self).is_running == old(self).is_running,
    {
        match self.get_container_health(container_id) {
            Some(mut h) => {
                if success {
                    h.consecutive_failures = 0;
                    h.status = HealthStatus::Healthy;
                } else {
                    h.status = HealthStatus::Failed;
                }
                self.set_record(container_id, h);
            },
            None => {},
        }
    }
}


/// Position of the first alert with identifier `id`.
pub open spec fn alert_index(s: Seq<AlertView>, id: Seq<char>) -> Option<int> {
    if exists|i: int| 0 <= i < s.len() && s[i].id == id {
        Some(choose|i: int| 0 <= i < s.len() && s[i].id == id && forall|j: int| 0 <= j < i ==> s[j].id != id)
    } else {
        None
    }
}

/// An alert with identifier `id` at `w` means there is a first one.
proof fn lemma_first_alert_exists(s: Seq<AlertView>, id: Seq<char>, w: int)
    requires
        0 <= w < s.len(),
        s[w].id == id,
    ensures
        exists|i: int| 0 <= i < s.len() && s[i].id == id && forall|j: int| 0 <= j < i ==> s[j].id != id,
    decreases w,
{
    if exists|j: int| 0 <= j < w && s[j].id == id {
        let j = choose|j: int| 0 <= j < w && s[j].id == id;
        lemma_first_alert_exists(s, id, j);
    } else {
        assert(0 <= w < s.len() && s[w].id == id && forall|j: int| 0 <= j < w ==> s[j].id != id);
    }
}

/// The first alert with a given identifier is well defined.
pub proof fn lemma_alert_index(s: Seq<AlertView>, id: Seq<char>)
    ensures
        match alert_index(s, id) {
            Some(i) => 0 <= i < s.len() && s[i].id == id && forall|j: int| 0 <= j < i ==> s[j].id != id,
            None => forall|j: int| 0 <= j < s.len() ==> s[j].id != id,
        },
{
    if exists|i: int| 0 <= i < s.len() && s[i].id == id {
        let w = choose|i: int| 0 <= i < s.len() && s[i].id == id;
        lemma_first_alert_exists(s, id, w);
    }
}

/// An alert marked resolved at `now`.
pub open spec fn resolved(a: AlertView, now: i64) -> AlertView {
    AlertView { status: AlertStatus::Resolved, resolved_at: Some(now), ..a }
}

/// An alert marked acknowledged.
pub open spec fn acknowledged(a: AlertView) -> AlertView {
    AlertView { status: AlertStatus::Acknowledged, ..a }
}

/// The active alerts, in order.
pub open spec fn active_alerts(s: Seq<AlertView>) -> Seq<AlertView>
    decreases s.len(),
{
    if s.len() == 0 {
        Seq::empty()
    } else if s.last().status == AlertStatus::Active {
        active_alerts(s.drop_last()).push(s.last())
    } else {
        active_alerts(s.drop_last())
    }
}

/// Key of the metric series of an entity: `container:...` entities have CPU,
/// memory and network series, any other entity is a node with CPU, memory and
/// disk series.
pub open spec fn metrics_key(entity: Seq<char>, t: MetricType) -> Option<Seq<char>> {
    if is_prefix("container:"@, entity) {
        match t {
            MetricType::CpuUsage => Some(entity + "."@ + "cpu"@),
            MetricType::MemoryUsage => Some(entity + "."@ + "memory"@),
            MetricType::NetworkRx => Some(entity + "."@ + "net_rx"@),
            MetricType::NetworkTx => Some(entity + "."@ + "net_tx"@),
            MetricType::DiskUsage => None,
        }
    } else {
        match t {
            MetricType::CpuUsage => Some(node_key(entity, "cpu"@)),
            MetricType::MemoryUsage => Some(node_key(entity, "memory"@)),
            MetricType::DiskUsage => Some(node_key(entity, "disk"@)),
            _ => None,
        }
    }
}

impl HealthMonitor {
    /// All container records, in table order.
    pub fn get_all_container_health(&self) -> (r: Vec<(String, ContainerHealth)>)
        ensures
            r@.len() == self.container_health@.len(),
            forall|i: int| 0 <= i < r@.len() ==> #[trigger] r@[i].0@ == self.container_health@[i].0@
                && r@[i].1@ == self.container_health@[i].1@,
    {
        let mut r: Vec<(String, ContainerHealth)> = Vec::new();
        let mut i: usize = 0;
        while i < self.container_health.len()
            invariant
                i <= self.container_health.len(),
                r@.len() == i,
                forall|j: int| 0 <= j < i ==> #[trigger] r@[j].0@ == self.container_health@[j].0@
                    && r@[j].1@ == self.container_health@[j].1@,
            decreases self.container_health.len() - i,
        {
            let e = &self.container_health[i];
            r.push((e.0.clone(), copy_container_health(&e.1)));
            i = i + 1;
        }
        r
    }

    /// The record of node `node_id`, if there is one.
    pub fn get_node_health(&self, node_id: &str) -> (r: Option<NodeHealth>)
        requires
            monitor_wf(self),
        ensures
            match r {
                Some(h) => node_map(self).contains_key(node_id@) && h@ == node_map(self)[node_id@],
                None => !node_map(self).contains_key(node_id@),
            },
    {
        let pos = find_key(&self.node_health, node_id);
        proof {
            lemma_key_pos(self.node_health@, node_id@);
        }
        match pos {
            Some(i) => {
                proof {
                    lemma_as_map_index(self.node_health@, i as int);
                }
                Some(copy_node_health(&self.node_health[i].1))
            },
            None => None,
        }
    }

    /// All node records, in table order.
    pub fn get_all_node_health(&self) -> (r: Vec<(String, NodeHealth)>)
        ensures
            r@.len() == self.node_health@.len(),
            forall|i: int| 0 <= i < r@.len() ==> #[trigger] r@[i].0@ == self.node_health@[i].0@
                && r@[i].1@ == self.node_health@[i].1@,
    {
        let mut r: Vec<(String, NodeHealth)> = Vec::new();
        let mut i: usize = 0;
        while i < self.node_health.len()
            invariant
                i <= self.node_health.len(),
                r@.len() == i,
                forall|j: int| 0 <= j < i ==> #[trigger] r@[j].0@ == self.node_health@[j].0@
                    && r@[j].1@ == self.node_health@[j].1@,
            decreases self.node_health.len() - i,
        {
            let e = &self.node_health[i];
            r.push((e.0.clone(), copy_node_health(&e.1)));
            i = i + 1;
        }
        r
    }

    /// All alerts, in the order they were raised.
    pub fn get_all_alerts(&self) -> (r: Vec<Alert>)
        ensures
            alerts_view(r@) == alerts_view(self.alerts@),
    {
        let mut r: Vec<Alert> = Vec::new();
        let mut i: usize = 0;
        while i < self.alerts.len()
            invariant
                i <= self.alerts.len(),
                alerts_view(r@) == alerts_view(self.alerts@).take(i as int),
            decreases self.alerts.len() - i,
        {
            let ghost before = r@;
            r.push(copy_alert(&self.alerts[i]));
            assert(alerts_view(r@) =~= alerts_view(before).push(self.alerts@[i as int]@));
            i = i + 1;
            assert(alerts_view(r@) =~= alerts_view(self.alerts@).take(i as int));
        }
        assert(alerts_view(self.alerts@).take(self.alerts@.len() as int) =~= alerts_view(self.alerts@));
        r
    }

    /// The active alerts, in the order they were raised.
    pub fn get_active_alerts(&self) -> (r: Vec<Alert>)
        ensures
            alerts_view(r@) == active_alerts(alerts_view(self.alerts@)),
    {
        let ghost all = alerts_view(self.alerts@);
        let mut r: Vec<Alert> = Vec::new();
        let mut i: usize = 0;
        while i < self.alerts.len()
            invariant
                i <= self.alerts.len(),
                all == alerts_view(self.alerts@),
                alerts_view(r@) == active_alerts(all.take(i as int)),
            decreases self.alerts.len() - i,
        {
            let ghost before = r@;
            assert(all.take(i + 1).drop_last() =~= all.take(i as int));
            if self.alerts[i].status == AlertStatus::Active {
                r.push(copy_alert(&self.alerts[i]));
                assert(alerts_view(r@) =~= alerts_view(before).push(all[i as int]));
            }
            i = i + 1;
        }
        assert(all.take(self.alerts@.len() as int) =~= all);
        r
    }

    /// Position of the first alert with identifier `id`.
    fn find_alert(&self, id: &str) -> (r: Option<usize>)
        ensures
            match r {
                Some(i) => i < self.alerts@.len() && alert_index(alerts_view(self.alerts@), id@) == Some(i as int),
                None => alert_index(alerts_view(self.alerts@), id@) is None,
            },
    {
        proof {
            lemma_alert_index(alerts_view(self.alerts@), id@);
        }
        let mut i: usize = 0;
        while i < self.alerts.len()
            invariant
                i <= self.alerts.len(),
                forall|j: int| 0 <= j < i ==> alerts_view(self.alerts@)[j].id != id@,
                match alert_index(alerts_view(self.alerts@), id@) {
                    Some(k) => 0 <= k < self.alerts@.len() && alerts_view(self.alerts@)[k].id == id@
                        && forall|j: int| 0 <= j < k ==> alerts_view(self.alerts@)[j].id != id@,
                    None => forall|j: int| 0 <= j < self.alerts@.len() ==> alerts_view(self.alerts@)[j].id != id@,
                },
            decreases self.alerts.len() - i,
        {
            if str_eq(self.alerts[i].id.as_str(), id) {
                assert(alerts_view(self.alerts@)[i as int].id == id@);
                return Some(i);
            }
            i = i + 1;
        }
        None
    }

    /// Marks the first alert with identifier `alert_id` resolved at `now`.
    pub fn resolve_alert(&mut self, alert_id: &str, now: i64) -> (r: Result<(), HealthError>)
        ensures
            match alert_index(alerts_view(old(self).alerts@), alert_id@) {
                Some(i) => r is Ok && alerts_view(final(self).alerts@) == alerts_view(old(self).alerts@).update(i,
                    resolved(alerts_view(old(self).alerts@)[i], now)),
                None => r matches Err(HealthError::AlertNotFound(x)) && x@ == alert_id@
                    && final(self).alerts@ == old(self).alerts@,
            },
            final(self).config == old(self).config,
            final(self).container_health == old(self).container_health,
            final(self).node_health == old(self).node_health,
            final(self).restart_queue == old(self).restart_queue,
            final(self).metrics_history == old(self).metrics_history,
            final(self).is_running == old(self).is_running,
    {
        match self.find_alert(alert_id) {
            Some(i) => {
                let mut a = copy_alert(&self.alerts[i]);
                a.status = AlertStatus::Resolved;
                a.resolved_at = Some(now);
                let ghost av = a@;
                assert(av == resolved(alerts_view(old(self).alerts@)[i as int], now));
                self.alerts.set(i, a);
                assert(alerts_view(self.alerts@) =~= alerts_view(old(self).alerts@).update(i as int, av));
                Ok(())
            },
            None => Err(HealthError::AlertNotFound(owned(alert_id))),
        }
    }

    /// Marks the first alert with identifier `alert_id` acknowledged.
    pub fn acknowledge_alert(&mut self, alert_id: &str) -> (r: Result<(), HealthError>)
        ensures
            match alert_index(alerts_view(old(self).alerts@), alert_id@) {
                Some(i) => r is Ok && alerts_view(final(self).alerts@) == alerts_view(old(self).alerts@).update(i,
                    acknowledged(alerts_view(old(self).alerts@)[i])),
                None => r matches Err(HealthError::AlertNotFound(x)) && x@ == alert_id@
                    && final(self).alerts@ == old(self).alerts@,
            },
            final(self).config == old(self).config,
            final(self).container_health == old(self).container_health,
            final(self).node_health == old(self).node_health,
            final(self).restart_queue == old(self).restart_queue,
            final(self).metrics_history == old(self).metrics_history,
            final(self).is_running == old(self).is_running,
    {
        match self.find_alert(alert_id) {
            Some(i) => {
                let mut a = copy_alert(&self.alerts[i]);
                a.status = AlertStatus::Acknowledged;
                let ghost av = a@;
                assert(av == acknowledged(alerts_view(old(self).alerts@)[i as int]));
                self.alerts.set(i, a);
                assert(alerts_view(self.alerts@) =~= alerts_view(old(self).alerts@).update(i as int, av));
                Ok(())
            },
            None => Err(HealthError::AlertNotFound(owned(alert_id))),
        }
    }

    /// The history of one metric of an entity (see [`metrics_key`]); empty when the
    /// metric does not apply to the entity or nothing was recorded.
    pub fn get_metrics_history(&self, entity_id: &str, metric_type: MetricType) -> (r: Vec<MetricDataPoint>)
        requires
            monitor_wf(self),
        ensures
            r@ == match metrics_key(entity_id@, metric_type) {
                Some(k) => series_of(metrics_map(self), k),
                None => Seq::empty(),
            },
    {
        let is_container = starts_with(entity_id, "container:");
        let mut key = String::new();
        if is_container {
            push_str(&mut key, entity_id);
            push_str(&mut key, ".");
            match metric_type {
                MetricType::CpuUsage => push_str(&mut key, "cpu"),
                MetricType::MemoryUsage => push_str(&mut key, "memory"),
                MetricType::NetworkRx => push_str(&mut key, "net_rx"),
                MetricType::NetworkTx => push_str(&mut key, "net_tx"),
                MetricType::DiskUsage => {
                    return Vec::new();
                },
            }
        } else {
            push_str(&mut key, "node:");
            push_str(&mut key, entity_id);
            push_str(&mut key, ".");
            match metric_type {
                MetricType::CpuUsage => push_str(&mut key, "cpu"),
                MetricType::MemoryUsage => push_str(&mut key, "memory"),
                MetricType::DiskUsage => push_str(&mut key, "disk"),
                _ => {
                    return Vec::new();
                },
            }
        }
        assert(Some(key@) == metrics_key(entity_id@, metric_type));
        let pos = find_key(&self.metrics_history, key.as_str());
        proof {
            lemma_key_pos(self.metrics_history@, key@);
        }
        match pos {
            Some(i) => {
                proof {
                    lemma_as_map_index(self.metrics_history@, i as int);
                }
                copy_series(&self.metrics_history[i].1)
            },
            None => Vec::new(),
        }
    }
}


/// Number of healthy container records.
pub open spec fn healthy_count(s: Seq<(String, ContainerHealth)>) -> nat
    decreases s.len(),
{
    if s.len() == 0 { 0 } else { healthy_count(s.drop_last()) + (if s.last().1.status == HealthStatus::Healthy { 1nat } else { 0nat }) }
}

/// Sum of the restart counts of the container records.
pub open spec fn restart_total(s: Seq<(String, ContainerHealth)>) -> nat
    decreases s.len(),
{
    if s.len() == 0 { 0 } else { restart_total(s.drop_last()) + s.last().1.restart_count as nat }
}

/// Number of healthy node records.
pub open spec fn healthy_node_count(s: Seq<(String, NodeHealth)>) -> nat
    decreases s.len(),
{
    if s.len() == 0 { 0 } else { healthy_node_count(s.drop_last()) + (if s.last().1.is_healthy { 1nat } else { 0nat }) }
}

/// Sum of the nodes' CPU usage.
pub open spec fn cpu_total(s: Seq<(String, NodeHealth)>) -> nat
    decreases s.len(),
{
    if s.len() == 0 { 0 } else { cpu_total(s.drop_last()) + s.last().1.cpu_usage_centi as nat }
}

/// Sum of the nodes' memory usage.
pub open spec fn memory_total(s: Seq<(String, NodeHealth)>) -> nat
    decreases s.len(),
{
    if s.len() == 0 { 0 } else { memory_total(s.drop_last()) + s.last().1.memory_usage_centi as nat }
}

/// Sum of the nodes' disk usage.
pub open spec fn disk_total(s: Seq<(String, NodeHealth)>) -> nat
    decreases s.len(),
{
    if s.len() == 0 { 0 } else { disk_total(s.drop_last()) + s.last().1.disk_usage_centi as nat }
}

/// Number of active alerts.
pub open spec fn active_count(s: Seq<Alert>) -> nat
    decreases s.len(),
{
    if s.len() == 0 { 0 } else { active_count(s.drop_last()) + (if s.last().status == AlertStatus::Active { 1nat } else { 0nat }) }
}

/// Number of active critical alerts.
pub open spec fn critical_count(s: Seq<Alert>) -> nat
    decreases s.len(),
{
    if s.len() == 0 {
        0
    } else {
        critical_count(s.drop_last()) + (if s.last().status == AlertStatus::Active && s.last().severity == AlertSeverity::Critical {
            1nat
        } else {
            0nat
        })
    }
}

/// The trend: degrading with more than two active critical alerts or more than
/// half the containers unhealthy, improving with neither kind at all, stable otherwise.
pub open spec fn trend_of(critical: nat, unhealthy: nat, total: nat) -> HealthTrend {
    if critical > 2 || unhealthy > total / 2 {
        HealthTrend::Degrading
    } else if critical == 0 && unhealthy == 0 {
        HealthTrend::Improving
    } else {
        HealthTrend::Stable
    }
}

/// The health trend reports a degrading cluster whenever more than two critical
/// alerts are active, whatever the containers; it reports degrading only then
/// or when more than half of the containers (rounded down) are unhealthy; and it
/// reports improving exactly when no critical alert is active and no container
/// is unhealthy.
pub proof fn law_health_trend(critical: nat, unhealthy: nat, total: nat)
    ensures
        critical > 2 ==> trend_of(critical, unhealthy, total) == HealthTrend::Degrading,
        trend_of(critical, unhealthy, total) == HealthTrend::Degrading ==> critical > 2 || unhealthy > total / 2,
        (trend_of(critical, unhealthy, total) == HealthTrend::Improving) == (critical == 0 && unhealthy == 0),
        unhealthy <= total / 2 && critical <= 2 ==> trend_of(critical, unhealthy, total) != HealthTrend::Degrading,
{
}

/// The healthy containers are among all containers.
pub proof fn lemma_healthy_count_bound(s: Seq<(String, ContainerHealth)>)
    ensures
        healthy_count(s) <= s.len(),
    decreases s.len(),
{
    if s.len() > 0 {
        lemma_healthy_count_bound(s.drop_last());
    }
}

/// The average of `total` over `n` items, rounded down (0 for no items).
pub open spec fn average(total: nat, n: nat) -> nat {
    if n > 0 { total / n } else { 0 }
}

/// Bound on an average of values below 2^64.
proof fn lemma_average_bound(total: nat, n: nat)
    requires
        total <= n * (u64::MAX as nat),
    ensures
        average(total, n) <= u64::MAX,
{
    if n > 0 {
        assert(total / n <= u64::MAX as nat) by (nonlinear_arith)
            requires
                total <= n * (u64::MAX as nat),
                n > 0,
        {
        }
    }
}

impl HealthMonitor {
    /// Counts of container records (healthy, restarts) in one pass.
    fn container_counts(&self) -> (r: (usize, u64))
        requires
            restart_total(self.container_health@) <= u32::MAX,
        ensures
            r.0 == healthy_count(self.container_health@),
            r.0 <= self.container_health@.len(),
            r.1 == restart_total(self.container_health@),
    {
        let ghost s = self.container_health@;
        let mut healthy: usize = 0;
        let mut restarts: u64 = 0;
        let mut i: usize = 0;
        while i < self.container_health.len()
            invariant
                i <= self.container_health.len(),
                s == self.container_health@,
                restart_total(s) <= u32::MAX,
                healthy == healthy_count(s.take(i as int)),
                healthy <= i,
                restarts == restart_total(s.take(i as int)),
            decreases self.container_health.len() - i,
        {
            assert(s.take(i + 1).drop_last() =~= s.take(i as int));
            proof {
                lemma_restart_total_prefix(s, i + 1);
            }
            if self.container_health[i].1.status == HealthStatus::Healthy {
                healthy = healthy + 1;
            }
            restarts = restarts + self.container_health[i].1.restart_count as u64;
            i = i + 1;
        }
        assert(s.take(s.len() as int) =~= s);
        (healthy, restarts)
    }

    /// Counts of active and of active critical alerts in one pass.
    fn alert_counts(&self) -> (r: (usize, usize))
        ensures
            r.0 == active_count(self.alerts@),
            r.1 == critical_count(self.alerts@),
            r.0 <= self.alerts@.len(),
            r.1 <= self.alerts@.len(),
    {
        let ghost s = self.alerts@;
        let mut active: usize = 0;
        let mut critical: usize = 0;
        let mut i: usize = 0;
        while i < self.alerts.len()
            invariant
                i <= self.alerts.len(),
                s == self.alerts@,
                active == active_count(s.take(i as int)),
                critical == critical_count(s.take(i as int)),
                active <= i,
                critical <= i,
            decreases self.alerts.len() - i,
        {
            assert(s.take(i + 1).drop_last() =~= s.take(i as int));
            if self.alerts[i].status == AlertStatus::Active {
                active = active + 1;
                if self.alerts[i].severity == AlertSeverity::Critical {
                    critical = critical + 1;
                }
            }
            i = i + 1;
        }
        assert(s.take(s.len() as int) =~= s);
        (active, critical)
    }

    /// The direction of the cluster's health (see [`trend_of`]).
    pub fn calculate_health_trend(&self) -> (r: HealthTrend)
        ensures
            r == trend_of(critical_count(self.alerts@), (self.container_health@.len() - healthy_count(self.container_health@)) as nat,
                self.container_health@.len() as nat),
            critical_count(self.alerts@) > 2 ==> r == HealthTrend::Degrading,
            r == HealthTrend::Degrading ==> critical_count(self.alerts@) > 2
                || (self.container_health@.len() - healthy_count(self.container_health@)) > self.container_health@.len() / 2,
            (r == HealthTrend::Improving) == (critical_count(self.alerts@) == 0
                && healthy_count(self.container_health@) == self.container_health@.len()),
    {
        proof {
            law_health_trend(critical_count(self.alerts@),
                (self.container_health@.len() - healthy_count(self.container_health@)) as nat, self.container_health@.len() as nat);
            lemma_healthy_count_bound(self.container_health@);
        }
        let (_, critical) = self.alert_counts();
        let mut healthy: usize = 0;
        let ghost s = self.container_health@;
        let mut i: usize = 0;
        while i < self.container_health.len()
            invariant
                i <= self.container_health.len(),
                s == self.container_health@,
                healthy == healthy_count(s.take(i as int)),
                healthy <= i,
            decreases self.container_health.len() - i,
        {
            assert(s.take(i + 1).drop_last() =~= s.take(i as int));
            if self.container_health[i].1.status == HealthStatus::Healthy {
                healthy = healthy + 1;
            }
            i = i + 1;
        }
        assert(s.take(s.len() as int) =~= s);
        let total = self.container_health.len();
        let unhealthy = total - healthy;
        if critical > 2 || unhealthy > total / 2 {
            HealthTrend::Degrading
        } else if critical == 0 && unhealthy == 0 {
            HealthTrend::Improving
        } else {
            HealthTrend::Stable
        }
    }

    /// Counts, restart total, alert counts, average node usage and trend, as of `now`.
    pub fn get_health_summary(&self, now: i64) -> (r: HealthSummary)
        requires
            restart_total(self.container_health@) <= u32::MAX,
        ensures
            r.total_containers == self.container_health@.len() as u32,
            r.healthy_containers == healthy_count(self.container_health@) as u32,
            r.unhealthy_containers == (self.container_health@.len() - healthy_count(self.container_health@)) as u32,
            r.total_nodes == self.node_health@.len() as u32,
            r.healthy_nodes == healthy_node_count(self.node_health@) as u32,
            r.unhealthy_nodes == (self.node_health@.len() - healthy_node_count(self.node_health@)) as u32,
            r.total_restarts == restart_total(self.container_health@),
            r.last_check == now,
            r.active_alerts == active_count(self.alerts@) as u32,
            r.critical_alerts == critical_count(self.alerts@) as u32,
            r.avg_cpu_usage_centi == average(cpu_total(self.node_health@), self.node_health@.len() as nat),
            r.avg_memory_usage_centi == average(memory_total(self.node_health@), self.node_health@.len() as nat),
            r.avg_disk_usage_centi == average(disk_total(self.node_health@), self.node_health@.len() as nat),
            r.health_trend == trend_of(critical_count(self.alerts@),
                (self.container_health@.len() - healthy_count(self.container_health@)) as nat, self.container_health@.len() as nat),
            critical_count(self.alerts@) > 2 ==> r.health_trend == HealthTrend::Degrading,
            r.health_trend == HealthTrend::Degrading ==> critical_count(self.alerts@) > 2
                || (self.container_health@.len() - healthy_count(self.container_health@)) > self.container_health@.len() / 2,
            (r.health_trend == HealthTrend::Improving) == (critical_count(self.alerts@) == 0
                && healthy_count(self.container_health@) == self.container_health@.len()),
    {
        proof {
            law_health_trend(critical_count(self.alerts@),
                (self.container_health@.len() - healthy_count(self.container_health@)) as nat, self.container_health@.len() as nat);
            lemma_healthy_count_bound(self.container_health@);
        }
        let (healthy, restarts) = self.container_counts();
        let total = self.container_health.len();
        let ghost s = self.node_health@;
        let mut healthy_nodes: usize = 0;
        let mut cpu: u128 = 0;
        let mut mem: u128 = 0;
        let mut disk: u128 = 0;
        let mut i: usize = 0;
        while i < self.node_health.len()
            invariant
                i <= self.node_health.len(),
                s == self.node_health@,
                healthy_nodes == healthy_node_count(s.take(i as int)),
                healthy_nodes <= i,
                cpu == cpu_total(s.take(i as int)),
                mem == memory_total(s.take(i as int)),
                disk == disk_total(s.take(i as int)),
                cpu <= i * (u64::MAX as nat),
                mem <= i * (u64::MAX as nat),
                disk <= i * (u64::MAX as nat),
            decreases self.node_health.len() - i,
        {
            assert(s.take(i + 1).drop_last() =~= s.take(i as int));
            let n = &self.node_health[i].1;
            if n.is_healthy {
                healthy_nodes = healthy_nodes + 1;
            }
            assert((i as nat) * (u64::MAX as nat) + (u64::MAX as nat) == ((i + 1) as nat) * (u64::MAX as nat)) by (nonlinear_arith);
            assert(i * (u64::MAX as nat) < u128::MAX - u64::MAX) by (nonlinear_arith)
                requires
                    i < usize::MAX,
            {
            }
            cpu = cpu + n.cpu_usage_centi as u128;
            mem = mem + n.memory_usage_centi as u128;
            disk = disk + n.disk_usage_centi as u128;
            i = i + 1;
        }
        assert(s.take(s.len() as int) =~= s);
        let count = self.node_health.len();
        proof {
            lemma_average_bound(cpu as nat, count as nat);
            lemma_average_bound(mem as nat, count as nat);
            lemma_average_bound(disk as nat, count as nat);
        }
        let avg_cpu: u64 = if count > 0 { (cpu / count as u128) as u64 } else { 0 };
        let avg_mem: u64 = if count > 0 { (mem / count as u128) as u64 } else { 0 };
        let avg_disk: u64 = if count > 0 { (disk / count as u128) as u64 } else { 0 };
        let (active, critical) = self.alert_counts();
        let trend = self.calculate_health_trend();
        HealthSummary {
            total_containers: #[verifier::truncate] (total as u32),
            healthy_containers: #[verifier::truncate] (healthy as u32),
            unhealthy_containers: #[verifier::truncate] ((total - healthy) as u32),
            total_nodes: #[verifier::truncate] (count as u32),
            healthy_nodes: #[verifier::truncate] (healthy_nodes as u32),
            unhealthy_nodes: #[verifier::truncate] ((count - healthy_nodes) as u32),
            total_restarts: restarts as u32,
            last_check: now,
            active_alerts: #[verifier::truncate] (active as u32),
            critical_alerts: #[verifier::truncate] (critical as u32),
            avg_cpu_usage_centi: avg_cpu,
            avg_memory_usage_centi: avg_mem,
            avg_disk_usage_centi: avg_disk,
            health_trend: trend,
        }
    }
}

/// The restart total of a prefix is at most the whole total.
proof fn lemma_restart_total_prefix(s: Seq<(String, ContainerHealth)>, i: int)
    requires
        0 <= i <= s.len(),
    ensures
        restart_total(s.take(i)) <= restart_total(s),
    decreases s.len() - i,
{
    if i < s.len() {
        lemma_restart_total_prefix(s, i + 1);
        assert(s.take(i + 1).drop_last() =~= s.take(i));
    } else {
        assert(s.take(i) =~= s);
    }
}


/// A usage in hundredths of a percent as a percentage, with the fraction's
/// trailing zeros dropped: 4550 is "45.5", 4000 is "40".
pub open spec fn percent_text(c: nat) -> Seq<char> {
    let frac = c % 100;
    if frac == 0 {
        decimal(c / 100)
    } else if frac % 10 == 0 {
        decimal(c / 100) + seq!['.', digit_char(frac / 10)]
    } else {
        decimal(c / 100) + seq!['.', digit_char(frac / 10), digit_char(frac % 10)]
    }
}

/// Appends a usage given in hundredths of a percent as a percentage (see [`percent_text`]).
pub fn push_percent(s: &mut String, c: u64)
    ensures
        final(s)@ == old(s)@ + percent_text(c as nat),
{
    push_decimal(s, c / 100);
    let frac = c % 100;
    if frac != 0 {
        push_char(s, '.');
        push_char(s, digit(frac / 10));
        if frac % 10 != 0 {
            push_char(s, digit(frac % 10));
        }
    }
    assert(final(s)@ =~= old(s)@ + percent_text(c as nat));
}

/// A node is healthy when CPU, memory and disk usage are each at most 90 % and
/// its network is connected.
pub open spec fn node_is_healthy(n: NodeHealthView) -> bool {
    n.cpu_usage_centi <= 9000 && n.memory_usage_centi <= 9000 && n.disk_usage_centi <= 9000
        && n.network_status == NetworkHealthStatus::Connected
}

/// A node is unhealthy as soon as its CPU, its memory or its disk is used above
/// 90 % (9000 hundredths), or its network is not connected; it is healthy
/// otherwise.
pub proof fn law_node_health(n: NodeHealthView)
    ensures
        n.cpu_usage_centi > 9000 ==> !node_is_healthy(n),
        n.memory_usage_centi > 9000 ==> !node_is_healthy(n),
        n.disk_usage_centi > 9000 ==> !node_is_healthy(n),
        n.network_status != NetworkHealthStatus::Connected ==> !node_is_healthy(n),
        n.cpu_usage_centi <= 9000 && n.memory_usage_centi <= 9000 && n.disk_usage_centi <= 9000
            && n.network_status == NetworkHealthStatus::Connected ==> node_is_healthy(n),
{
}

/// Whether a node sample is healthy (see [`node_is_healthy`]).
pub fn evaluate_node_health(info: &NodeHealth) -> (r: bool)
    ensures
        r == node_is_healthy(info@),
        info.cpu_usage_centi > 9000 ==> !r,
        info.memory_usage_centi > 9000 ==> !r,
        info.disk_usage_centi > 9000 ==> !r,
        info.network_status != NetworkHealthStatus::Connected ==> !r,
        r == (info.cpu_usage_centi <= 9000 && info.memory_usage_centi <= 9000 && info.disk_usage_centi <= 9000
            && info.network_status == NetworkHealthStatus::Connected),
{
    proof {
        law_node_health(info@);
    }
    if info.cpu_usage_centi > 9000 || info.memory_usage_centi > 9000 || info.disk_usage_centi > 9000 {
        return false;
    }
    info.network_status == NetworkHealthStatus::Connected
}

/// The seed of a node's simulated usage: the byte sum of its id, wrapping at 2^64.
pub open spec fn node_seed(id: Seq<char>) -> nat {
    byte_sum(vstd::utf8::encode_utf8(id)) % 0x1_0000_0000_0000_0000
}

/// The simulated sample of node `id` at `now`: usage from the seed of its id
/// and the time, the network degraded when `draw` is a multiple of 20.
pub open spec fn node_sample_view(id: Seq<char>, now: i64, draw: usize) -> NodeHealthView {
    let seed = node_seed(id);
    let tf = (now as u64) % 100;
    NodeHealthView {
        node_id: id,
        last_seen: now,
        cpu_usage_centi: ((seed % 30) * 100 + 1000 + tf * 10) as u64,
        memory_usage_centi: ((seed % 40) * 100 + 2000 + tf * 5) as u64,
        disk_usage_centi: ((seed % 20) * 100 + 1000 + tf * 10 / 3) as u64,
        network_status: if draw % 20 == 0 { NetworkHealthStatus::Degraded } else { NetworkHealthStatus::Connected },
        container_count: (seed % 10) as u32,
        health_history: Seq::empty(),
        consecutive_failures: 0,
        is_healthy: true,
        last_failure: None,
    }
}

/// The simulated sample of a node at `now` with the random draw `draw` (see
/// [`node_sample_view`]).
pub fn node_sample(node_id: &str, now: i64, draw: usize) -> (r: NodeHealth)
    ensures
        r@ == node_sample_view(node_id@, now, draw),
{
    let seed = byte_sum_u64(node_id);
    let tf: u64 = (now as u64) % 100;
    let r = NodeHealth {
        node_id: owned(node_id),
        last_seen: now,
        cpu_usage_centi: (seed % 30) * 100 + 1000 + tf * 10,
        memory_usage_centi: (seed % 40) * 100 + 2000 + tf * 5,
        disk_usage_centi: (seed % 20) * 100 + 1000 + tf * 10 / 3,
        network_status: if draw % 20 == 0 { NetworkHealthStatus::Degraded } else { NetworkHealthStatus::Connected },
        container_count: (seed % 10) as u32,
        health_history: Vec::new(),
        consecutive_failures: 0,
        is_healthy: true,
        last_failure: None,
    };
    assert(r@.health_history =~= Seq::<NodeHistoryView>::empty());
    r
}

/// The simulated sample of a node at `now`, with a fresh random draw for its network.
pub fn get_node_system_info(node_id: &str, now: i64) -> (r: NodeHealth)
    ensures
        exists|draw: usize| r@ == #[trigger] node_sample_view(node_id@, now, draw),
{
    let draw = crate::probe::random_usize();
    let r = node_sample(node_id, now, draw);
    assert(r@ == node_sample_view(node_id@, now, draw));
    r
}


/// A node's first record, made from its first sample.
pub open spec fn fresh_node(id: Seq<char>, now: i64, info: NodeHealthView) -> NodeHealthView {
    NodeHealthView {
        node_id: id,
        last_seen: now,
        cpu_usage_centi: info.cpu_usage_centi,
        memory_usage_centi: info.memory_usage_centi,
        disk_usage_centi: info.disk_usage_centi,
        network_status: info.network_status,
        container_count: info.container_count,
        health_history: Seq::empty(),
        consecutive_failures: 0,
        is_healthy: true,
        last_failure: None,
    }
}

/// The record of node `id` before a check at `now` with sample `info`.
pub open spec fn node_before(nm: Map<Seq<char>, NodeHealthView>, id: Seq<char>, now: i64, info: NodeHealthView) -> NodeHealthView {
    if nm.contains_key(id) { nm[id] } else { fresh_node(id, now, info) }
}

/// The record after a check: the sample's usage is taken over and logged, the
/// failure count is reset by a healthy sample and grows by one otherwise, and a
/// healthy node that reaches the failure threshold becomes unhealthy at `now`.
pub open spec fn after_node_check(n: NodeHealthView, info: NodeHealthView, now: i64, threshold: u32) -> NodeHealthView {
    let healthy = node_is_healthy(info);
    let failures: u32 = if healthy { 0 } else { (n.consecutive_failures + 1) as u32 };
    let falls = !healthy && failures >= threshold && n.is_healthy;
    NodeHealthView {
        node_id: n.node_id,
        last_seen: now,
        cpu_usage_centi: info.cpu_usage_centi,
        memory_usage_centi: info.memory_usage_centi,
        disk_usage_centi: info.disk_usage_centi,
        network_status: info.network_status,
        container_count: info.container_count,
        health_history: push_history(n.health_history, NodeHistoryView {
            timestamp: now,
            cpu_usage_centi: info.cpu_usage_centi,
            memory_usage_centi: info.memory_usage_centi,
            disk_usage_centi: info.disk_usage_centi,
            network_status: info.network_status,
            message: None,
        }),
        consecutive_failures: failures,
        is_healthy: if healthy { true } else if falls { false } else { n.is_healthy },
        last_failure: if falls { Some(now) } else { n.last_failure },
    }
}

/// Message of the alert for a recovered node.
pub open spec fn recovered_text(id: Seq<char>, failures: u32) -> Seq<char> {
    "Node "@ + id + " recovered after "@ + decimal(failures as nat) + " failures"@
}

/// Message of the alert for a node that became unhealthy.
pub open spec fn unhealthy_node_text(id: Seq<char>, info: NodeHealthView) -> Seq<char> {
    "Node "@ + id + " is unhealthy: CPU "@ + percent_text(info.cpu_usage_centi as nat) + "%, Memory "@
        + percent_text(info.memory_usage_centi as nat) + "%, Disk "@ + percent_text(info.disk_usage_centi as nat)
        + "%, Network "@ + network_status_text(info.network_status)
}

/// Message of the alert for a node halfway to the failure threshold.
pub open spec fn stressed_node_text(id: Seq<char>, info: NodeHealthView) -> Seq<char> {
    "Node "@ + id + " showing signs of stress: CPU "@ + percent_text(info.cpu_usage_centi as nat) + "%, Memory "@
        + percent_text(info.memory_usage_centi as nat) + "%, Disk "@ + percent_text(info.disk_usage_centi as nat) + "%"@
}

/// The alert a node check raises, if any: recovery after failures, the node
/// becoming unhealthy, or the failure count reaching half the threshold.
pub open spec fn node_alert(id: Seq<char>, n: NodeHealthView, info: NodeHealthView, now: i64, threshold: u32, token: Seq<char>)
    -> Option<AlertView> {
    let src = AlertSourceView::Node(id);
    if node_is_healthy(info) {
        if n.consecutive_failures > 0 {
            Some(new_alert(alert_id(now, token), now, AlertSeverity::Info, src, recovered_text(id, n.consecutive_failures)))
        } else {
            None
        }
    } else if n.consecutive_failures + 1 >= threshold {
        if n.is_healthy {
            Some(new_alert(alert_id(now, token), now, AlertSeverity::Critical, src, unhealthy_node_text(id, info)))
        } else {
            None
        }
    } else if n.consecutive_failures + 1 == threshold / 2 {
        Some(new_alert(alert_id(now, token), now, AlertSeverity::Warning, src, stressed_node_text(id, info)))
    } else {
        None
    }
}

/// The node becomes unhealthy in this check, and a recovery is to be attempted.
pub open spec fn node_falls(n: NodeHealthView, info: NodeHealthView, threshold: u32) -> bool {
    !node_is_healthy(info) && n.consecutive_failures + 1 >= threshold && n.is_healthy
}

/// What a node check changes: node records, alerts, metric series.
pub struct NodeCheckState {
    pub nodes: Map<Seq<char>, NodeHealthView>,
    pub alerts: Seq<AlertView>,
    pub metrics: Map<Seq<char>, Seq<MetricDataPoint>>,
}

/// The part of the monitor that node checks change.
pub open spec fn node_check_state(m: &HealthMonitor) -> NodeCheckState {
    NodeCheckState { nodes: node_map(m), alerts: alerts_view(m.alerts@), metrics: metrics_map(m) }
}

/// One node check of node `id` at `now` with sample `info`.
pub open spec fn node_check_step(st: NodeCheckState, threshold: u32, id: Seq<char>, info: NodeHealthView, now: i64,
    token: Seq<char>) -> NodeCheckState {
    let n = node_before(st.nodes, id, now, info);
    NodeCheckState {
        nodes: st.nodes.insert(id, after_node_check(n, info, now, threshold)),
        alerts: match node_alert(id, n, info, now, threshold, token) {
            Some(a) => st.alerts.push(a),
            None => st.alerts,
        },
        metrics: with_node_metrics(st.metrics, id, info, now),
    }
}

/// A history with `e` appended, dropping the oldest entry beyond the limit.
fn push_node_entry(hist: &mut Vec<NodeHealthHistoryEntry>, e: NodeHealthHistoryEntry)
    ensures
        final(hist)@.map_values(|x: NodeHealthHistoryEntry| x@) == push_history(old(hist)@.map_values(|x: NodeHealthHistoryEntry| x@), e@),
{
    let ghost ev = e@;
    hist.push(e);
    assert(hist@.map_values(|x: NodeHealthHistoryEntry| x@) =~= old(hist)@.map_values(|x: NodeHealthHistoryEntry| x@).push(ev));
    if hist.len() > HISTORY_LIMIT {
        let ghost before = hist@;
        hist.remove(0);
        assert(hist@.map_values(|x: NodeHealthHistoryEntry| x@) =~= before.map_values(|x: NodeHealthHistoryEntry| x@).drop_first());
    }
}

/// The message of the alert for a node that became unhealthy.
fn unhealthy_node_message(id: &str, info: &NodeHealth) -> (r: String)
    ensures
        r@ == unhealthy_node_text(id@, info@),
{
    let mut m = owned("Node ");
    push_str(&mut m, id);
    push_str(&mut m, " is unhealthy: CPU ");
    push_percent(&mut m, info.cpu_usage_centi);
    push_str(&mut m, "%, Memory ");
    push_percent(&mut m, info.memory_usage_centi);
    push_str(&mut m, "%, Disk ");
    push_percent(&mut m, info.disk_usage_centi);
    push_str(&mut m, "%, Network ");
    push_str(&mut m, info.network_status.as_str());
    assert(m@ =~= unhealthy_node_text(id@, info@));
    m
}

/// The message of the alert for a stressed node.
fn stressed_node_message(id: &str, info: &NodeHealth) -> (r: String)
    ensures
        r@ == stressed_node_text(id@, info@),
{
    let mut m = owned("Node ");
    push_str(&mut m, id);
    push_str(&mut m, " showing signs of stress: CPU ");
    push_percent(&mut m, info.cpu_usage_centi);
    push_str(&mut m, "%, Memory ");
    push_percent(&mut m, info.memory_usage_centi);
    push_str(&mut m, "%, Disk ");
    push_percent(&mut m, info.disk_usage_centi);
    push_str(&mut m, "%");
    assert(m@ =~= stressed_node_text(id@, info@));
    m
}

impl HealthMonitor {
    /// The record of node `id` as it stands before a check at `now` with sample `info`.
    fn node_for_check(&self, id: &str, now: i64, info: &NodeHealth) -> (n: NodeHealth)
        requires
            monitor_wf(self),
        ensures
            n@ == node_before(node_map(self), id@, now, info@),
    {
        match self.get_node_health(id) {
            Some(n) => n,
            None => {
                let n = NodeHealth {
                    node_id: owned(id),
                    last_seen: now,
                    cpu_usage_centi: info.cpu_usage_centi,
                    memory_usage_centi: info.memory_usage_centi,
                    disk_usage_centi: info.disk_usage_centi,
                    network_status: info.network_status,
                    container_count: info.container_count,
                    health_history: Vec::new(),
                    consecutive_failures: 0,
                    is_healthy: true,
                    last_failure: None,
                };
                assert(n@.health_history =~= Seq::<NodeHistoryView>::empty());
                n
            },
        }
    }

    /// Raises the alert of a node check, if any (see [`node_alert`]).
    fn node_check_alert(&mut self, id: &str, failures: u32, was_healthy: bool, info: &NodeHealth, now: i64, token: &str)
        requires
            !node_is_healthy(info@) ==> failures < u32::MAX,
        ensures
            ({
                let n = NodeHealthView { consecutive_failures: failures, is_healthy: was_healthy, ..fresh_node(id@, now, info@) };
                alerts_view(final(self).alerts@) == match node_alert(id@, n, info@, now, old(self).config.node_failure_threshold, token@) {
                    Some(a) => alerts_view(old(self).alerts@).push(a),
                    None => alerts_view(old(self).alerts@),
                }
            }),
            final(self).config == old(self).config,
            final(self).container_health == old(self).container_health,
            final(self).node_health == old(self).node_health,
            final(self).restart_queue == old(self).restart_queue,
            final(self).metrics_history == old(self).metrics_history,
            final(self).is_running == old(self).is_running,
    {
        let thr = self.config.node_failure_threshold;
        if evaluate_node_health(info) {
            if failures > 0 {
                let mut m = owned("Node ");
                push_str(&mut m, id);
                push_str(&mut m, " recovered after ");
                push_decimal(&mut m, failures as u64);
                push_str(&mut m, " failures");
                self.create_alert_with_token(AlertSeverity::Info, AlertSource::Node(owned(id)), m, now, token);
            }
        } else if failures + 1 >= thr {
            if was_healthy {
                let m = unhealthy_node_message(id, info);
                self.create_alert_with_token(AlertSeverity::Critical, AlertSource::Node(owned(id)), m, now, token);
            }
        } else if failures + 1 == thr / 2 {
            let m = stressed_node_message(id, info);
            self.create_alert_with_token(AlertSeverity::Warning, AlertSource::Node(owned(id)), m, now, token);
        }
    }

    /// Applies one sample `info` of node `node_id` at `now` (see
    /// [`node_check_step`]); `token` names an alert it raises. Returns whether the
    /// node just became unhealthy, so that a recovery is to be attempted.
    pub fn record_node_check(&mut self, node_id: &str, info: &NodeHealth, now: i64, token: &str) -> (recover: bool)
        requires
            monitor_wf(old(self)),
            !node_is_healthy(info@) ==> node_before(node_map(old(self)), node_id@, now, info@).consecutive_failures < u32::MAX,
        ensures
            monitor_wf(final(self)),
            node_check_state(final(self)) == node_check_step(node_check_state(old(self)), old(self).config.node_failure_threshold,
                node_id@, info@, now, token@),
            recover == node_falls(node_before(node_map(old(self)), node_id@, now, info@), info@,
                old(self).config.node_failure_threshold),
            final(self).config == old(self).config,
            final(self).container_health == old(self).container_health,
            final(self).restart_queue == old(self).restart_queue,
            final(self).is_running == old(self).is_running,
    {
        let ghost st = node_check_state(old(self));
        let thr = self.config.node_failure_threshold;
        let mut n = self.node_for_check(node_id, now, info);
        let ghost n0 = n@;
        let failures = n.consecutive_failures;
        let was_healthy = n.is_healthy;
        let healthy = evaluate_node_health(info);
        n.last_seen = now;
        n.cpu_usage_centi = info.cpu_usage_centi;
        n.memory_usage_centi = info.memory_usage_centi;
        n.disk_usage_centi = info.disk_usage_centi;
        n.network_status = info.network_status;
        n.container_count = info.container_count;
        push_node_entry(&mut n.health_history, NodeHealthHistoryEntry {
            timestamp: now,
            cpu_usage_centi: info.cpu_usage_centi,
            memory_usage_centi: info.memory_usage_centi,
            disk_usage_centi: info.disk_usage_centi,
            network_status: info.network_status,
            message: None,
        });
        let mut recover = false;
        if healthy {
            n.consecutive_failures = 0;
            n.is_healthy = true;
        } else {
            n.consecutive_failures = failures + 1;
            if failures + 1 >= thr && was_healthy {
                n.is_healthy = false;
                n.last_failure = Some(now);
                recover = true;
            }
        }
        assert(n@ == after_node_check(n0, info@, now, thr));
        let ghost nv = n@;
        insert_key(&mut self.node_health, owned(node_id), n);
        assert(node_map(self) =~= st.nodes.insert(node_id@, nv));
        self.store_node_metrics(node_id, info, now);
        self.node_check_alert(node_id, failures, was_healthy, info, now, token);
        recover
    }
}


/// A node checking round over `ids` at `now`: the `i`-th node sampled with the
/// `i`-th draw, its alert named by the `i`-th token.
pub open spec fn node_checks(st: NodeCheckState, threshold: u32, ids: Seq<Seq<char>>, now: i64, draws: Seq<usize>,
    tokens: Seq<Seq<char>>) -> NodeCheckState
    decreases ids.len(),
{
    if ids.len() == 0 {
        st
    } else {
        let k = ids.len() - 1;
        node_check_step(node_checks(st, threshold, ids.drop_last(), now, draws.take(k), tokens.take(k)), threshold, ids[k],
            node_sample_view(ids[k], now, draws[k]), now, tokens[k])
    }
}

/// The nodes of a checking round that became unhealthy, in order.
pub open spec fn falling_nodes(st: NodeCheckState, threshold: u32, ids: Seq<Seq<char>>, now: i64, draws: Seq<usize>,
    tokens: Seq<Seq<char>>) -> Seq<Seq<char>>
    decreases ids.len(),
{
    if ids.len() == 0 {
        Seq::empty()
    } else {
        let k = ids.len() - 1;
        let before = node_checks(st, threshold, ids.drop_last(), now, draws.take(k), tokens.take(k));
        let info = node_sample_view(ids[k], now, draws[k]);
        let rest = falling_nodes(st, threshold, ids.drop_last(), now, draws.take(k), tokens.take(k));
        if node_falls(node_before(before.nodes, ids[k], now, info), info, threshold) { rest.push(ids[k]) } else { rest }
    }
}

impl HealthMonitor {
    /// Samples and checks each node of `node_ids` at `now`, in order (see
    /// [`node_checks`]); each sample takes a fresh random draw and each alert a
    /// fresh random identifier. Returns the nodes that became unhealthy, for
    /// which a recovery is to be attempted.
    pub fn check_node_health(&mut self, node_ids: &Vec<String>, now: i64) -> (recover: Vec<String>)
        requires
            monitor_wf(old(self)),
            node_ids@.len() < u32::MAX,
            forall|k: Seq<char>| #[trigger] node_map(old(self)).contains_key(k)
                ==> node_map(old(self))[k].consecutive_failures + node_ids@.len() < u32::MAX,
        ensures
            monitor_wf(final(self)),
            exists|draws: Seq<usize>, tokens: Seq<Seq<char>>| draws.len() == node_ids@.len() && tokens.len() == node_ids@.len()
                && node_check_state(final(self)) == #[trigger] node_checks(node_check_state(old(self)),
                    old(self).config.node_failure_threshold, strings_view(node_ids@), now, draws, tokens)
                && strings_view(recover@) == falling_nodes(node_check_state(old(self)), old(self).config.node_failure_threshold,
                    strings_view(node_ids@), now, draws, tokens),
            final(self).config == old(self).config,
            final(self).container_health == old(self).container_health,
            final(self).restart_queue == old(self).restart_queue,
            final(self).is_running == old(self).is_running,
    {
        let ghost st0 = node_check_state(old(self));
        let ghost ids = strings_view(node_ids@);
        let ghost mut draws: Seq<usize> = Seq::empty();
        let ghost mut tokens: Seq<Seq<char>> = Seq::empty();
        let thr = self.config.node_failure_threshold;
        let n = node_ids.len();
        let mut recover: Vec<String> = Vec::new();
        let mut i: usize = 0;
        while i < n
            invariant
                i <= n,
                n == node_ids@.len(),
                n < u32::MAX,
                ids == strings_view(node_ids@),
                monitor_wf(self),
                draws.len() == i,
                tokens.len() == i,
                node_check_state(self) == node_checks(st0, thr, ids.take(i as int), now, draws, tokens),
                strings_view(recover@) == falling_nodes(st0, thr, ids.take(i as int), now, draws, tokens),
                self.config == old(self).config,
                thr == old(self).config.node_failure_threshold,
                self.container_health == old(self).container_health,
                self.restart_queue == old(self).restart_queue,
                self.is_running == old(self).is_running,
                forall|k: Seq<char>| #[trigger] node_map(self).contains_key(k)
                    ==> node_map(self)[k].consecutive_failures + (n - i) < u32::MAX,
            decreases n - i,
        {
            let id = &node_ids[i];
            assert(id@ == ids[i as int]);
            let info = get_node_system_info(id.as_str(), now);
            let ghost draw = choose|d: usize| info@ == node_sample_view(id@, now, d);
            let token = new_uuid();
            let ghost nm = node_map(self);
            let ghost before = node_check_state(self);
            let ghost rec0 = recover@;
            proof {
                if !node_is_healthy(info@) && nm.contains_key(id@) {
                    assert(nm[id@].consecutive_failures + (n - i) < u32::MAX);
                }
            }
            let falls = self.record_node_check(id.as_str(), &info, now, token.as_str());
            if falls {
                recover.push(id.clone());
            }
            proof {
                let d_old = draws;
                let t_old = tokens;
                draws = draws.push(draw);
                tokens = tokens.push(token@);
                assert(ids.take(i + 1).drop_last() =~= ids.take(i as int));
                assert(draws.take(i as int) =~= d_old);
                assert(tokens.take(i as int) =~= t_old);
                assert(ids.take(i + 1)[i as int] == ids[i as int]);
                assert(node_check_state(self) == node_checks(st0, thr, ids.take(i + 1), now, draws, tokens));
                if falls {
                    assert(strings_view(recover@) =~= strings_view(rec0).push(id@));
                } else {
                    assert(strings_view(recover@) =~= strings_view(rec0));
                }
                assert(strings_view(recover@) == falling_nodes(st0, thr, ids.take(i + 1), now, draws, tokens));
                let nb = node_before(nm, id@, now, info@);
                assert(node_map(self) == nm.insert(id@, after_node_check(nb, info@, now, thr)));
                assert forall|k: Seq<char>| #[trigger] node_map(self).contains_key(k)
                    implies node_map(self)[k].consecutive_failures + (n - i - 1) < u32::MAX by {
                    if k != id@ {
                        assert(nm.contains_key(k));
                    } else if nm.contains_key(id@) {
                        assert(nm[id@].consecutive_failures + (n - i) < u32::MAX);
                    }
                }
            }
            i = i + 1;
        }
        assert(ids.take(n as int) =~= ids);
        recover
    }
}

} // verus!
