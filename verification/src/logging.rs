//! Log records of the platform's notable events: each function gives the level
//! and the text of one kind of record; emitting it is left to the caller.
use vstd::prelude::*;
use crate::text::{decimal, signed_decimal, owned, push_str, push_decimal, push_signed_decimal};

verus! {

/// Severity of a log record.
#[derive(Debug, Clone, Copy, PartialEq, Eq, Structural)]
pub enum LogLevel {
    Error,
    Warn,
    Info,
    Debug,
    Trace,
}

/// A log record: its level and its text.
#[derive(Debug, Clone)]
pub struct LogRecord {
    pub level: LogLevel,
    pub message: String,
}

/// A tenant's resource usage, at info level.
pub fn log_resource_usage(tenant_id: &str, cpu: u32, memory: u64, storage: u64, containers: u32, services: u32) -> (r: LogRecord)
    ensures
        r.level == LogLevel::Info,
        r.message@ == "Resource usage for tenant "@ + tenant_id@ + ": CPU: "@ + decimal(cpu as nat) + "%, Memory: "@
            + decimal(memory as nat) + " bytes, Storage: "@ + decimal(storage as nat) + " bytes, Containers: "@
            + decimal(containers as nat) + ", Services: "@ + decimal(services as nat),
{
    let mut m = owned("Resource usage for tenant ");
    push_str(&mut m, tenant_id);
    push_str(&mut m, ": CPU: ");
    push_decimal(&mut m, cpu as u64);
    push_str(&mut m, "%, Memory: ");
    push_decimal(&mut m, memory);
    push_str(&mut m, " bytes, Storage: ");
    push_decimal(&mut m, storage);
    push_str(&mut m, " bytes, Containers: ");
    push_decimal(&mut m, containers as u64);
    push_str(&mut m, ", Services: ");
    push_decimal(&mut m, services as u64);
    LogRecord { level: LogLevel::Info, message: m }
}

/// A tenant's usage of a resource exceeding its quota, at warning level.
pub fn log_quota_violation(tenant_id: &str, resource_type: &str, current: u64, limit: u64) -> (r: LogRecord)
    ensures
        r.level == LogLevel::Warn,
        r.message@ == "Quota violation for tenant "@ + tenant_id@ + ": "@ + resource_type@ + " usage "@
            + decimal(current as nat) + " exceeds limit "@ + decimal(limit as nat),
{
    let mut m = owned("Quota violation for tenant ");
    push_str(&mut m, tenant_id);
    push_str(&mut m, ": ");
    push_str(&mut m, resource_type);
    push_str(&mut m, " usage ");
    push_decimal(&mut m, current);
    push_str(&mut m, " exceeds limit ");
    push_decimal(&mut m, limit);
    LogRecord { level: LogLevel::Warn, message: m }
}

/// A container runtime error met on behalf of a tenant, at error level.
pub fn log_container_runtime_error(tenant_id: &str, error: &str) -> (r: LogRecord)
    ensures
        r.level == LogLevel::Error,
        r.message@ == "Container runtime error for tenant "@ + tenant_id@ + ": "@ + error@,
{
    let mut m = owned("Container runtime error for tenant ");
    push_str(&mut m, tenant_id);
    push_str(&mut m, ": ");
    push_str(&mut m, error);
    LogRecord { level: LogLevel::Error, message: m }
}

/// A cache hit for a tenant's resource usage of the given age, at debug level.
pub fn log_cache_hit(tenant_id: &str, age_seconds: i64) -> (r: LogRecord)
    ensures
        r.level == LogLevel::Debug,
        r.message@ == "Cache hit for tenant "@ + tenant_id@ + " resource usage (age: "@
            + signed_decimal(age_seconds as int) + " seconds)"@,
{
    let mut m = owned("Cache hit for tenant ");
    push_str(&mut m, tenant_id);
    push_str(&mut m, " resource usage (age: ");
    push_signed_decimal(&mut m, age_seconds);
    push_str(&mut m, " seconds)");
    LogRecord { level: LogLevel::Debug, message: m }
}

/// An update of a tenant's resource usage cache, at debug level.
pub fn log_cache_update(tenant_id: &str) -> (r: LogRecord)
    ensures
        r.level == LogLevel::Debug,
        r.message@ == "Updated resource usage cache for tenant "@ + tenant_id@,
{
    let mut m = owned("Updated resource usage cache for tenant ");
    push_str(&mut m, tenant_id);
    LogRecord { level: LogLevel::Debug, message: m }
}

/// The outcome of sending a tenant's metrics to an external monitoring system:
/// success at info level, failure at error level.
pub fn log_external_monitoring(tenant_id: &str, system_name: &str, success: bool) -> (r: LogRecord)
    ensures
        r.level == if success { LogLevel::Info } else { LogLevel::Error },
        r.message@ == (if success { "Successfully sent metrics for tenant "@ } else { "Failed to send metrics for tenant "@ })
            + tenant_id@ + " to external monitoring system "@ + system_name@,
{
    let mut m = if success { owned("Successfully sent metrics for tenant ") } else { owned("Failed to send metrics for tenant ") };
    push_str(&mut m, tenant_id);
    push_str(&mut m, " to external monitoring system ");
    push_str(&mut m, system_name);
    LogRecord { level: if success { LogLevel::Info } else { LogLevel::Error }, message: m }
}

} // verus!
