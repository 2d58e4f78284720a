//! Administration: the settings that may change at runtime and their
//! validation, build and runtime facts, maintenance reports and shutdown
//! readiness.

use vstd::prelude::*;
use crate::clock::now_millis;
use crate::collector::{wrap_add, MetricsCollector, TopicMetrics};
use crate::text::{str_equal, str_to_string};

verus! {

/// Settings that may change while the broker runs.
#[derive(Debug, Clone)]
pub struct RuntimeConfig {
    pub metrics_collection_enabled: bool,
    pub metrics_collection_interval_seconds: u64,
    pub health_monitoring_enabled: bool,
    pub log_level: String,
    pub max_memory_mb: Option<u64>,
    pub message_retention_seconds: u64,
    pub max_message_size_bytes: usize,
    pub max_connections: u32,
    pub enable_debug_endpoints: bool,
}

impl Default for RuntimeConfig {
    /// Metrics every minute, health monitoring on, `info` logging, 1 GiB of
    /// memory, a day of retention, 1 MiB messages, 10 000 connections, no
    /// debug endpoints.
    fn default() -> (c: RuntimeConfig)
        ensures
            c.metrics_collection_enabled,
            c.metrics_collection_interval_seconds == 60,
            c.health_monitoring_enabled,
            c.log_level@ == "info"@,
            c.max_memory_mb == Some(1024u64),
            c.message_retention_seconds == 86400,
            c.max_message_size_bytes == 1048576,
            c.max_connections == 10000,
            !c.enable_debug_endpoints,
    {
        RuntimeConfig {
            metrics_collection_enabled: true,
            metrics_collection_interval_seconds: 60,
            health_monitoring_enabled: true,
            log_level: str_to_string("info"),
            max_memory_mb: Some(1024),
            message_retention_seconds: 24 * 60 * 60,
            max_message_size_bytes: 1024 * 1024,
            max_connections: 10000,
            enable_debug_endpoints: false,
        }
    }
}

/// The log levels a configuration may name.
pub open spec fn known_log_level(l: Seq<char>) -> bool {
    l == "trace"@ || l == "debug"@ || l == "info"@ || l == "warn"@ || l == "error"@
}

/// The first problem with a configuration, checked in this order, if any.
pub open spec fn config_problem(c: RuntimeConfig) -> Option<Seq<char>> {
    if c.metrics_collection_interval_seconds == 0 {
        Some("Metrics collection interval must be greater than 0"@)
    } else if c.metrics_collection_interval_seconds > 3600 {
        Some("Metrics collection interval too long (max 1 hour)"@)
    } else if c.message_retention_seconds == 0 {
        Some("Message retention must be greater than 0"@)
    } else if c.max_message_size_bytes == 0 {
        Some("Max message size must be greater than 0"@)
    } else if c.max_message_size_bytes > 104857600 {
        Some("Max message size too large (max 100MB)"@)
    } else if c.max_connections == 0 {
        Some("Max connections must be greater than 0"@)
    } else if !known_log_level(c.log_level@) {
        Some("Invalid log level"@)
    } else {
        None
    }
}

/// A build's facts.
#[derive(Debug, Clone)]
pub struct BuildInfo {
    pub version: String,
    pub git_sha: String,
    pub build_date: String,
    pub rust_version: String,
    pub target_arch: String,
    pub target_os: String,
}

/// The running process's facts.
#[derive(Debug, Clone, Copy, PartialEq, Eq, Structural)]
pub struct RuntimeInfo {
    pub uptime_seconds: u64,
    pub start_time: u64,
    pub process_id: u32,
    pub thread_count: usize,
    pub tokio_worker_threads: usize,
}

/// The features built in.
#[derive(Debug, Clone, Copy, PartialEq, Eq, Structural)]
pub struct FeatureFlags {
    pub http_api: bool,
    pub authentication: bool,
    pub persistence: bool,
    pub clustering: bool,
    pub compression: bool,
    pub metrics: bool,
    pub tracing: bool,
}

impl FeatureFlags {
    /// The features of this build: authentication, persistence, metrics
    /// and tracing; no HTTP API, clustering or compression.
    pub fn current() -> (f: FeatureFlags)
        ensures
            f == (FeatureFlags {
                http_api: false,
                authentication: true,
                persistence: true,
                clustering: false,
                compression: false,
                metrics: true,
                tracing: true,
            }),
    {
        FeatureFlags {
            http_api: false,
            authentication: true,
            persistence: true,
            clustering: false,
            compression: false,
            metrics: true,
            tracing: true,
        }
    }
}

/// One maintenance step.
#[derive(Debug, Clone)]
pub struct MaintenanceOperation {
    pub operation: String,
    pub success: bool,
    pub duration_ms: u64,
    pub message: Option<String>,
}

/// The outcome of a maintenance run.
#[derive(Debug, Clone)]
pub struct MaintenanceReport {
    pub started_at: u64,
    pub completed_at: u64,
    pub total_duration_ms: u64,
    pub operations: Vec<MaintenanceOperation>,
}

/// Whether the broker may shut down, and what stands in the way.
#[derive(Debug, Clone)]
pub struct ShutdownStatus {
    pub ready_for_shutdown: bool,
    pub active_connections: u64,
    pub pending_messages: u64,
    pub estimated_drain_time_seconds: Option<u64>,
    pub recommendations: Vec<String>,
}

fn operation(name: &str, duration_ms: u64, message: &str) -> (op: MaintenanceOperation)
    ensures
        op.operation@ == name@,
        op.success,
        op.duration_ms == duration_ms,
        op.message matches Some(m) && m@ == message@,
{
    MaintenanceOperation {
        operation: str_to_string(name),
        success: true,
        duration_ms,
        message: Some(str_to_string(message)),
    }
}

impl MaintenanceReport {
    /// The report of a maintenance run: memory cleanup, metrics cleanup
    /// and log rotation, each successful, with the given durations.
    pub fn completed(started_at: u64, completed_at: u64, total_duration_ms: u64, memory_ms: u64, metrics_ms: u64, log_ms: u64) -> (r: MaintenanceReport)
        ensures
            r.started_at == started_at,
            r.completed_at == completed_at,
            r.total_duration_ms == total_duration_ms,
            r.operations@.len() == 3,
            r.operations@[0].operation@ == "memory_cleanup"@ && r.operations@[0].duration_ms == memory_ms,
            r.operations@[1].operation@ == "metrics_cleanup"@ && r.operations@[1].duration_ms == metrics_ms,
            r.operations@[2].operation@ == "log_rotation"@ && r.operations@[2].duration_ms == log_ms,
            forall|i: int| 0 <= i < 3 ==> (#[trigger] r.operations@[i]).success,
            r.operations@[0].message matches Some(m) && m@ == "Memory cleanup completed"@,
            r.operations@[1].message matches Some(m) && m@ == "Metrics cleanup completed"@,
            r.operations@[2].message matches Some(m) && m@ == "Log rotation completed"@,
    {
        let mut ops: Vec<MaintenanceOperation> = Vec::new();
        ops.push(operation("memory_cleanup", memory_ms, "Memory cleanup completed"));
        ops.push(operation("metrics_cleanup", metrics_ms, "Metrics cleanup completed"));
        ops.push(operation("log_rotation", log_ms, "Log rotation completed"));
        MaintenanceReport { started_at, completed_at, total_duration_ms, operations: ops }
    }
}

/// The messages waiting in the topics' queues (summed modulo 2^64).
pub open spec fn pending_sum(ts: Seq<(String, TopicMetrics)>) -> u64
    decreases ts.len(),
{
    if ts.len() == 0 {
        0
    } else {
        wrap_add(pending_sum(ts.drop_last()), ts.last().1.messages_in_queue)
    }
}

/// The shutdown readiness for `active` connections and `pending` queued
/// messages: ready when both are zero; otherwise a drain estimate of one
/// second per hundred messages (at least 30) when messages wait, and two
/// recommendations; when ready, one.
pub fn shutdown_status(active: u64, pending: u64) -> (s: ShutdownStatus)
    ensures
        s.ready_for_shutdown == (active == 0 && pending == 0),
        s.active_connections == active,
        s.pending_messages == pending,
        s.estimated_drain_time_seconds == (if pending > 0 {
            Some(if pending / 100 < 30 { 30u64 } else { (pending / 100) as u64 })
        } else {
            None
        }),
        s.recommendations@.map_values(|r: String| r@) == (if active > 0 || pending > 0 {
            seq!["Wait for active connections to close"@, "Allow pending messages to be processed"@]
        } else {
            seq!["System ready for shutdown"@]
        }),
{
    let mut recs: Vec<String> = Vec::new();
    if active > 0 || pending > 0 {
        recs.push(str_to_string("Wait for active connections to close"));
        recs.push(str_to_string("Allow pending messages to be processed"));
    } else {
        recs.push(str_to_string("System ready for shutdown"));
    }
    proof {
        if active > 0 || pending > 0 {
            assert(recs@.map_values(|r: String| r@) =~= seq!["Wait for active connections to close"@, "Allow pending messages to be processed"@]);
        } else {
            assert(recs@.map_values(|r: String| r@) =~= seq!["System ready for shutdown"@]);
        }
    }
    ShutdownStatus {
        ready_for_shutdown: active == 0 && pending == 0,
        active_connections: active,
        pending_messages: pending,
        estimated_drain_time_seconds: if pending > 0 {
            Some(if pending / 100 < 30 { 30 } else { pending / 100 })
        } else {
            None
        },
        recommendations: recs,
    }
}

/// The runtime settings and when the broker started.
#[derive(Debug)]
pub struct AdminManager {
    config: RuntimeConfig,
    start_millis: u64,
}

impl AdminManager {
    /// The current settings.
    pub closed spec fn settings(&self) -> RuntimeConfig {
        self.config
    }

    /// When the broker started, milliseconds since the epoch.
    pub closed spec fn started(&self) -> u64 {
        self.start_millis
    }

    /// Default settings, started at `now`.
    pub fn new_at(now: u64) -> (m: AdminManager)
        ensures
            m.settings().metrics_collection_interval_seconds == 60,
            m.settings().log_level@ == "info"@,
            m.started() == now,
    {
        AdminManager { config: RuntimeConfig::default(), start_millis: now }
    }

    /// Default settings, started now.
    pub fn new() -> (m: AdminManager)
        ensures
            m.settings().metrics_collection_interval_seconds == 60,
            m.settings().log_level@ == "info"@,
    {
        AdminManager::new_at(now_millis())
    }

    /// A copy of the current settings.
    pub fn get_config(&self) -> (c: RuntimeConfig)
        ensures
            c.metrics_collection_enabled == self.settings().metrics_collection_enabled,
            c.metrics_collection_interval_seconds == self.settings().metrics_collection_interval_seconds,
            c.health_monitoring_enabled == self.settings().health_monitoring_enabled,
            c.log_level@ == self.settings().log_level@,
            c.max_memory_mb == self.settings().max_memory_mb,
            c.message_retention_seconds == self.settings().message_retention_seconds,
            c.max_message_size_bytes == self.settings().max_message_size_bytes,
            c.max_connections == self.settings().max_connections,
            c.enable_debug_endpoints == self.settings().enable_debug_endpoints,
    {
        RuntimeConfig {
            metrics_collection_enabled: self.config.metrics_collection_enabled,
            metrics_collection_interval_seconds: self.config.metrics_collection_interval_seconds,
            health_monitoring_enabled: self.config.health_monitoring_enabled,
            log_level: self.config.log_level.clone(),
            max_memory_mb: self.config.max_memory_mb,
            message_retention_seconds: self.config.message_retention_seconds,
            max_message_size_bytes: self.config.max_message_size_bytes,
            max_connections: self.config.max_connections,
            enable_debug_endpoints: self.config.enable_debug_endpoints,
        }
    }

    /// Accepts a configuration without problems; refuses the first problem
    /// found (see `config_problem`).
    pub fn validate_config(&self, config: &RuntimeConfig) -> (r: Result<(), String>)
        ensures
            match config_problem(*config) {
                None => r is Ok,
                Some(p) => r matches Err(e) && e@ == p,
            },
    {
        if config.metrics_collection_interval_seconds == 0 {
            return Err(str_to_string("Metrics collection interval must be greater than 0"));
        }
        if config.metrics_collection_interval_seconds > 3600 {
            return Err(str_to_string("Metrics collection interval too long (max 1 hour)"));
        }
        if config.message_retention_seconds == 0 {
            return Err(str_to_string("Message retention must be greater than 0"));
        }
        if config.max_message_size_bytes == 0 {
            return Err(str_to_string("Max message size must be greater than 0"));
        }
        if config.max_message_size_bytes > 100 * 1024 * 1024 {
            return Err(str_to_string("Max message size too large (max 100MB)"));
        }
        if config.max_connections == 0 {
            return Err(str_to_string("Max connections must be greater than 0"));
        }
        let l = config.log_level.as_str();
        if str_equal(l, "trace") || str_equal(l, "debug") || str_equal(l, "info") || str_equal(l, "warn")
            || str_equal(l, "error") {
            Ok(())
        } else {
            Err(str_to_string("Invalid log level"))
        }
    }

    /// Replaces the settings with a valid configuration; a configuration
    /// with a problem is refused and the settings stay.
    pub fn update_config(&mut self, new_config: RuntimeConfig) -> (r: Result<(), String>)
        ensures
            match config_problem(new_config) {
                None => r is Ok && final(self).settings() == new_config,
                Some(p) => (r matches Err(e) && e@ == p) && final(self).settings() == old(self).settings(),
            },
            final(self).started() == old(self).started(),
    {
        match self.validate_config(&new_config) {
            Err(e) => Err(e),
            Ok(()) => {
                self.config = new_config;
                Ok(())
            },
        }
    }

    /// Whole seconds since the broker started, at `now` (0 if the clock is behind).
    pub fn uptime_seconds_at(&self, now: u64) -> (s: u64)
        ensures
            s == (if now >= self.started() { ((now - self.started()) / 1000) as u64 } else { 0 }),
    {
        if now >= self.start_millis {
            (now - self.start_millis) / 1000
        } else {
            0
        }
    }

    /// The runtime facts at `now`, with the given process facts.
    pub fn runtime_info_at(&self, now: u64, process_id: u32, thread_count: usize, workers: usize) -> (r: RuntimeInfo)
        ensures
            r.uptime_seconds == (if now >= self.started() { ((now - self.started()) / 1000) as u64 } else { 0 }),
            r.start_time == self.started(),
            r.process_id == process_id,
            r.thread_count == thread_count,
            r.tokio_worker_threads == workers,
    {
        RuntimeInfo {
            uptime_seconds: self.uptime_seconds_at(now),
            start_time: self.start_millis,
            process_id,
            thread_count,
            tokio_worker_threads: workers,
        }
    }

    /// A maintenance run now: memory cleanup, metrics cleanup and log
    /// rotation (none of which has work to do), each timed on the clock, as
    /// is the whole run.
    pub fn perform_maintenance(&self) -> (r: Result<MaintenanceReport, String>)
        ensures
            r matches Ok(rep) && {
                &&& rep.operations@.len() == 3
                &&& rep.operations@[0].operation@ == "memory_cleanup"@
                &&& rep.operations@[1].operation@ == "metrics_cleanup"@
                &&& rep.operations@[2].operation@ == "log_rotation"@
                &&& forall|i: int| 0 <= i < 3 ==> (#[trigger] rep.operations@[i]).success
                &&& rep.total_duration_ms == (if rep.completed_at >= rep.started_at {
                    (rep.completed_at - rep.started_at) as u64
                } else {
                    0
                })
            },
    {
        let started_at = now_millis();
        let t1 = now_millis();
        let memory_ms = t1.saturating_sub(started_at);
        let t2 = now_millis();
        let metrics_ms = t2.saturating_sub(t1);
        let t3 = now_millis();
        let log_ms = t3.saturating_sub(t2);
        let completed_at = now_millis();
        let total = completed_at.saturating_sub(started_at);
        Ok(MaintenanceReport::completed(started_at, completed_at, total, memory_ms, metrics_ms, log_ms))
    }

    /// Whether the broker may shut down, judged from the metrics: active
    /// connections and the messages waiting in the topics' queues.
    pub fn prepare_shutdown(&self, metrics: &MetricsCollector) -> (r: Result<ShutdownStatus, String>)
        ensures
            r matches Ok(s) && s.active_connections == metrics.connections_active
                && s.pending_messages == pending_sum(metrics.topic_metrics.entries())
                && s.ready_for_shutdown == (metrics.connections_active == 0
                    && pending_sum(metrics.topic_metrics.entries()) == 0),
    {
        let n = metrics.topic_metrics.len();
        let mut pending: u64 = 0;
        let mut i: usize = 0;
        while i < n
            invariant
                n == metrics.topic_metrics.entries().len(),
                i <= n,
                pending == pending_sum(metrics.topic_metrics.entries().subrange(0, i as int)),
            decreases n - i,
        {
            let e = metrics.topic_metrics.entry_at(i);
            proof {
                let t = metrics.topic_metrics.entries();
                assert(t.subrange(0, i + 1).drop_last() =~= t.subrange(0, i as int));
            }
            pending = pending.wrapping_add(e.1.messages_in_queue);
            i = i + 1;
        }
        proof {
            assert(metrics.topic_metrics.entries().subrange(0, n as int) =~= metrics.topic_metrics.entries());
        }
        Ok(shutdown_status(metrics.connections_active, pending))
    }
}

} // verus!
