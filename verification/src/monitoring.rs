//! Metrics for external monitoring systems: the per-tenant usage report.
use vstd::prelude::*;
use crate::text::owned;

verus! {

/// A metric for an external monitoring system, with its labels.
#[derive(Debug)]
pub struct Metric {
    pub name: String,
    pub value: u64,
    pub labels: Vec<(String, String)>,
    pub timestamp: i64,
}

/// Mathematical value of a [`Metric`].
pub struct MetricView {
    pub name: Seq<char>,
    pub value: u64,
    pub labels: Seq<(Seq<char>, Seq<char>)>,
    pub timestamp: i64,
}

impl View for Metric {
    type V = MetricView;

    open spec fn view(&self) -> MetricView {
        MetricView {
            name: self.name@,
            value: self.value,
            labels: self.labels@.map_values(|l: (String, String)| (l.0@, l.1@)),
            timestamp: self.timestamp,
        }
    }
}

/// A tenant metric: labelled with the tenant id.
pub open spec fn tenant_metric(name: Seq<char>, value: u64, tenant: Seq<char>, t: i64) -> MetricView {
    MetricView { name, value, labels: seq![("tenant_id"@, tenant)], timestamp: t }
}

/// The usage report of a tenant at `t`: CPU, memory, storage, container count and
/// service count, in that order.
pub open spec fn tenant_metrics_view(tenant: Seq<char>, cpu: u64, memory: u64, storage: u64, containers: u64, services: u64,
    t: i64) -> Seq<MetricView> {
    seq![
        tenant_metric("tenant_cpu_usage"@, cpu, tenant, t),
        tenant_metric("tenant_memory_usage"@, memory, tenant, t),
        tenant_metric("tenant_storage_usage"@, storage, tenant, t),
        tenant_metric("tenant_container_count"@, containers, tenant, t),
        tenant_metric("tenant_service_count"@, services, tenant, t),
    ]
}

/// One tenant metric.
fn tenant_metric_of(name: &str, value: u64, tenant_id: &str, t: i64) -> (m: Metric)
    ensures
        m@ == tenant_metric(name@, value, tenant_id@, t),
{
    let mut labels: Vec<(String, String)> = Vec::new();
    labels.push((owned("tenant_id"), owned(tenant_id)));
    let m = Metric { name: owned(name), value, labels, timestamp: t };
    assert(m@.labels =~= seq![("tenant_id"@, tenant_id@)]);
    m
}

/// The usage report of a tenant at `t` (see [`tenant_metrics_view`]).
pub fn tenant_metrics(tenant_id: &str, cpu: u64, memory: u64, storage: u64, containers: u64, services: u64, t: i64)
    -> (r: Vec<Metric>)
    ensures
        r@.map_values(|m: Metric| m@) == tenant_metrics_view(tenant_id@, cpu, memory, storage, containers, services, t),
{
    let mut r: Vec<Metric> = Vec::new();
    r.push(tenant_metric_of("tenant_cpu_usage", cpu, tenant_id, t));
    r.push(tenant_metric_of("tenant_memory_usage", memory, tenant_id, t));
    r.push(tenant_metric_of("tenant_storage_usage", storage, tenant_id, t));
    r.push(tenant_metric_of("tenant_container_count", containers, tenant_id, t));
    r.push(tenant_metric_of("tenant_service_count", services, tenant_id, t));
    assert(r@.map_values(|m: Metric| m@) =~= tenant_metrics_view(tenant_id@, cpu, memory, storage, containers, services, t));
    r
}

} // verus!
