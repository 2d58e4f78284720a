//! Production configuration profiles, automatic tuning and validation.

use vstd::prelude::*;
use crate::text::{str_to_string, str_equal, str_to_lowercase, lowercase_of};

verus! {

/// The kind of workload a configuration is tuned for.
#[derive(Debug, Clone, Copy, PartialEq, Eq, Structural)]
pub enum PerformanceProfile {
    /// Lowest latency at higher resource use.
    LowLatency,
    /// Highest throughput, with batching.
    HighThroughput,
    /// A balance for general use.
    Balanced,
    /// Few resources, for constrained environments.
    ResourceEfficient,
    /// Tuned by hand.
    Custom,
}

/// Listening and connection settings.
#[derive(Debug, Clone)]
pub struct AdvancedServerConfig {
    pub bind_addr: String,
    pub max_connections: usize,
    pub max_connections_per_ip: usize,
    pub connection_timeout_ms: u64,
    pub idle_timeout_ms: u64,
    pub tcp_nodelay: bool,
    pub tcp_keepalive: bool,
    pub tcp_keepalive_interval_ms: u64,
    pub socket_recv_buffer_size: Option<usize>,
    pub socket_send_buffer_size: Option<usize>,
    pub backlog: u32,
    pub reuse_port: bool,
}

/// Buffer pools and message size limits.
#[derive(Debug, Clone)]
pub struct MemoryConfig {
    pub enable_memory_pooling: bool,
    pub small_buffer_pool_size: usize,
    pub medium_buffer_pool_size: usize,
    pub large_buffer_pool_size: usize,
    pub small_buffer_capacity: usize,
    pub medium_buffer_capacity: usize,
    pub large_buffer_capacity: usize,
    pub message_pool_size: usize,
    pub enable_zero_copy: bool,
    pub max_message_size: usize,
    pub memory_limit_mb: Option<usize>,
}

/// Network I/O settings.
#[derive(Debug, Clone)]
pub struct NetworkConfig {
    pub enable_vectored_io: bool,
    pub max_batch_size: usize,
    pub max_batch_count: usize,
    pub write_buffer_size: usize,
    pub read_buffer_size: usize,
    pub enable_compression: bool,
    pub compression_threshold: usize,
    pub enable_tls: bool,
    pub tls_cert_path: Option<String>,
    pub tls_key_path: Option<String>,
}

/// Worker and runtime settings.
#[derive(Debug, Clone)]
pub struct PerformanceConfig {
    pub worker_threads: usize,
    pub enable_thread_affinity: bool,
    pub thread_stack_size_kb: usize,
    pub enable_numa_awareness: bool,
    pub gc_threshold_mb: usize,
    pub enable_jemalloc: bool,
    pub prefetch_distance: usize,
    pub enable_branch_prediction: bool,
}

/// Metrics, tracing and health checking.
#[derive(Debug, Clone)]
pub struct MonitoringConfig {
    pub enable_metrics: bool,
    pub metrics_bind_addr: String,
    pub enable_tracing: bool,
    pub tracing_level: String,
    pub enable_profiling: bool,
    /// The share of operations profiled, in parts per million.
    pub profiling_sample_rate_ppm: u64,
    pub metrics_collection_interval_ms: u64,
    pub enable_health_checks: bool,
    pub health_check_interval_ms: u64,
}

/// Authentication and rate limiting.
#[derive(Debug, Clone)]
pub struct SecurityConfig {
    pub enable_authentication: bool,
    pub api_keys: Vec<String>,
    pub enable_rate_limiting: bool,
    pub rate_limit_per_connection: u32,
    pub rate_limit_per_ip: u32,
    pub rate_limit_window_ms: u64,
    pub enable_ddos_protection: bool,
    pub max_payload_size: usize,
    pub enable_audit_logging: bool,
}

/// A complete production configuration.
#[derive(Debug, Clone)]
pub struct ProductionConfig {
    pub profile: PerformanceProfile,
    pub server: AdvancedServerConfig,
    pub memory: MemoryConfig,
    pub networking: NetworkConfig,
    pub performance: PerformanceConfig,
    pub monitoring: MonitoringConfig,
    pub security: SecurityConfig,
}

/// `num_cpus::get`: the number of CPUs available to the process, at least 1.
#[verifier::external_body]
fn cpu_count() -> (n: usize)
    ensures
        n >= 1,
{
    num_cpus::get()
}

/// Twice `n`, capped at `usize::MAX`.
pub open spec fn double_sat(n: usize) -> usize {
    if n > usize::MAX / 2 { usize::MAX } else { (2 * n) as usize }
}

fn double_saturating(n: usize) -> (r: usize)
    ensures
        r == double_sat(n),
{
    if n > usize::MAX / 2 { usize::MAX } else { 2 * n }
}

fn one_string(s: &str) -> (v: Vec<String>)
    ensures
        v@.len() == 1,
        v@[0]@ == s@,
{
    let mut v: Vec<String> = Vec::new();
    v.push(str_to_string(s));
    v
}

/// The settings of the low latency profile for `cpus` cores.
pub open spec fn is_low_latency(c: ProductionConfig, cpus: usize) -> bool {
    &&& c.profile == PerformanceProfile::LowLatency
    &&& c.server.bind_addr@ == "0.0.0.0:8080"@
    &&& c.server.max_connections == 5000
    &&& c.server.max_connections_per_ip == 50
    &&& c.server.connection_timeout_ms == 5000
    &&& c.server.idle_timeout_ms == 30000
    &&& c.server.tcp_nodelay
    &&& c.server.tcp_keepalive
    &&& c.server.tcp_keepalive_interval_ms == 1000
    &&& c.server.socket_recv_buffer_size == Some(262144usize)
    &&& c.server.socket_send_buffer_size == Some(262144usize)
    &&& c.server.backlog == 1024
    &&& c.server.reuse_port
    &&& c.memory.enable_memory_pooling
    &&& c.memory.small_buffer_pool_size == 200
    &&& c.memory.medium_buffer_pool_size == 100
    &&& c.memory.large_buffer_pool_size == 50
    &&& c.memory.small_buffer_capacity == 2048
    &&& c.memory.medium_buffer_capacity == 8192
    &&& c.memory.large_buffer_capacity == 32768
    &&& c.memory.message_pool_size == 2000
    &&& c.memory.enable_zero_copy
    &&& c.memory.max_message_size == 65536
    &&& c.memory.memory_limit_mb == Some(2048usize)
    &&& c.networking.enable_vectored_io
    &&& c.networking.max_batch_size == 8192
    &&& c.networking.max_batch_count == 4
    &&& c.networking.write_buffer_size == 16384
    &&& c.networking.read_buffer_size == 16384
    &&& !c.networking.enable_compression
    &&& c.networking.compression_threshold == 0
    &&& !c.networking.enable_tls
    &&& c.networking.tls_cert_path is None
    &&& c.networking.tls_key_path is None
    &&& c.performance.worker_threads == cpus
    &&& c.performance.enable_thread_affinity
    &&& c.performance.thread_stack_size_kb == 512
    &&& c.performance.enable_numa_awareness
    &&& c.performance.gc_threshold_mb == 512
    &&& c.performance.enable_jemalloc
    &&& c.performance.prefetch_distance == 64
    &&& c.performance.enable_branch_prediction
    &&& c.monitoring.enable_metrics
    &&& c.monitoring.metrics_bind_addr@ == "127.0.0.1:9090"@
    &&& !c.monitoring.enable_tracing
    &&& c.monitoring.tracing_level@ == "error"@
    &&& !c.monitoring.enable_profiling
    &&& c.monitoring.profiling_sample_rate_ppm == 10000
    &&& c.monitoring.metrics_collection_interval_ms == 1000
    &&& c.monitoring.enable_health_checks
    &&& c.monitoring.health_check_interval_ms == 5000
    &&& !c.security.enable_authentication
    &&& c.security.api_keys@.len() == 0
    &&& c.security.enable_rate_limiting
    &&& c.security.rate_limit_per_connection == 10000
    &&& c.security.rate_limit_per_ip == 50000
    &&& c.security.rate_limit_window_ms == 1000
    &&& c.security.enable_ddos_protection
    &&& c.security.max_payload_size == 65536
    &&& !c.security.enable_audit_logging
}

/// The settings of the high throughput profile for `cpus` cores.
pub open spec fn is_high_throughput(c: ProductionConfig, cpus: usize) -> bool {
    &&& c.profile == PerformanceProfile::HighThroughput
    &&& c.server.bind_addr@ == "0.0.0.0:8080"@
    &&& c.server.max_connections == 20000
    &&& c.server.max_connections_per_ip == 200
    &&& c.server.connection_timeout_ms == 30000
    &&& c.server.idle_timeout_ms == 300000
    &&& !c.server.tcp_nodelay
    &&& c.server.tcp_keepalive
    &&& c.server.tcp_keepalive_interval_ms == 10000
    &&& c.server.socket_recv_buffer_size == Some(1048576usize)
    &&& c.server.socket_send_buffer_size == Some(1048576usize)
    &&& c.server.backlog == 4096
    &&& c.server.reuse_port
    &&& c.memory.enable_memory_pooling
    &&& c.memory.small_buffer_pool_size == 500
    &&& c.memory.medium_buffer_pool_size == 200
    &&& c.memory.large_buffer_pool_size == 100
    &&& c.memory.small_buffer_capacity == 4096
    &&& c.memory.medium_buffer_capacity == 16384
    &&& c.memory.large_buffer_capacity == 65536
    &&& c.memory.message_pool_size == 5000
    &&& c.memory.enable_zero_copy
    &&& c.memory.max_message_size == 1048576
    &&& c.memory.memory_limit_mb == Some(8192usize)
    &&& c.networking.enable_vectored_io
    &&& c.networking.max_batch_size == 262144
    &&& c.networking.max_batch_count == 64
    &&& c.networking.write_buffer_size == 131072
    &&& c.networking.read_buffer_size == 131072
    &&& c.networking.enable_compression
    &&& c.networking.compression_threshold == 1024
    &&& !c.networking.enable_tls
    &&& c.networking.tls_cert_path is None
    &&& c.networking.tls_key_path is None
    &&& c.performance.worker_threads == double_sat(cpus)
    &&& c.performance.enable_thread_affinity
    &&& c.performance.thread_stack_size_kb == 1024
    &&& c.performance.enable_numa_awareness
    &&& c.performance.gc_threshold_mb == 2048
    &&& c.performance.enable_jemalloc
    &&& c.performance.prefetch_distance == 256
    &&& c.performance.enable_branch_prediction
    &&& c.monitoring.enable_metrics
    &&& c.monitoring.metrics_bind_addr@ == "127.0.0.1:9090"@
    &&& c.monitoring.enable_tracing
    &&& c.monitoring.tracing_level@ == "info"@
    &&& c.monitoring.enable_profiling
    &&& c.monitoring.profiling_sample_rate_ppm == 100000
    &&& c.monitoring.metrics_collection_interval_ms == 5000
    &&& c.monitoring.enable_health_checks
    &&& c.monitoring.health_check_interval_ms == 30000
    &&& c.security.enable_authentication
    &&& c.security.api_keys@.len() == 1 && c.security.api_keys@[0]@ == "default-key"@
    &&& c.security.enable_rate_limiting
    &&& c.security.rate_limit_per_connection == 5000
    &&& c.security.rate_limit_per_ip == 25000
    &&& c.security.rate_limit_window_ms == 1000
    &&& c.security.enable_ddos_protection
    &&& c.security.max_payload_size == 1048576
    &&& c.security.enable_audit_logging
}

/// The settings of the balanced profile for `cpus` cores.
pub open spec fn is_balanced(c: ProductionConfig, cpus: usize) -> bool {
    &&& c.profile == PerformanceProfile::Balanced
    &&& c.server.bind_addr@ == "0.0.0.0:8080"@
    &&& c.server.max_connections == 10000
    &&& c.server.max_connections_per_ip == 100
    &&& c.server.connection_timeout_ms == 15000
    &&& c.server.idle_timeout_ms == 180000
    &&& c.server.tcp_nodelay
    &&& c.server.tcp_keepalive
    &&& c.server.tcp_keepalive_interval_ms == 5000
    &&& c.server.socket_recv_buffer_size == Some(524288usize)
    &&& c.server.socket_send_buffer_size == Some(524288usize)
    &&& c.server.backlog == 2048
    &&& c.server.reuse_port
    &&& c.memory.enable_memory_pooling
    &&& c.memory.small_buffer_pool_size == 150
    &&& c.memory.medium_buffer_pool_size == 75
    &&& c.memory.large_buffer_pool_size == 25
    &&& c.memory.small_buffer_capacity == 2048
    &&& c.memory.medium_buffer_capacity == 8192
    &&& c.memory.large_buffer_capacity == 32768
    &&& c.memory.message_pool_size == 1500
    &&& c.memory.enable_zero_copy
    &&& c.memory.max_message_size == 262144
    &&& c.memory.memory_limit_mb == Some(4096usize)
    &&& c.networking.enable_vectored_io
    &&& c.networking.max_batch_size == 65536
    &&& c.networking.max_batch_count == 16
    &&& c.networking.write_buffer_size == 65536
    &&& c.networking.read_buffer_size == 65536
    &&& c.networking.enable_compression
    &&& c.networking.compression_threshold == 4096
    &&& !c.networking.enable_tls
    &&& c.networking.tls_cert_path is None
    &&& c.networking.tls_key_path is None
    &&& c.performance.worker_threads == cpus
    &&& !c.performance.enable_thread_affinity
    &&& c.performance.thread_stack_size_kb == 512
    &&& !c.performance.enable_numa_awareness
    &&& c.performance.gc_threshold_mb == 1024
    &&& !c.performance.enable_jemalloc
    &&& c.performance.prefetch_distance == 64
    &&& !c.performance.enable_branch_prediction
    &&& c.monitoring.enable_metrics
    &&& c.monitoring.metrics_bind_addr@ == "127.0.0.1:9090"@
    &&& c.monitoring.enable_tracing
    &&& c.monitoring.tracing_level@ == "info"@
    &&& !c.monitoring.enable_profiling
    &&& c.monitoring.profiling_sample_rate_ppm == 10000
    &&& c.monitoring.metrics_collection_interval_ms == 10000
    &&& c.monitoring.enable_health_checks
    &&& c.monitoring.health_check_interval_ms == 30000
    &&& c.security.enable_authentication
    &&& c.security.api_keys@.len() == 1 && c.security.api_keys@[0]@ == "supersecretkey"@
    &&& c.security.enable_rate_limiting
    &&& c.security.rate_limit_per_connection == 1000
    &&& c.security.rate_limit_per_ip == 5000
    &&& c.security.rate_limit_window_ms == 1000
    &&& c.security.enable_ddos_protection
    &&& c.security.max_payload_size == 262144
    &&& !c.security.enable_audit_logging
}

/// The settings of the resource efficient profile for `cpus` cores.
pub open spec fn is_resource_efficient(c: ProductionConfig, cpus: usize) -> bool {
    &&& c.profile == PerformanceProfile::ResourceEfficient
    &&& c.server.bind_addr@ == "0.0.0.0:8080"@
    &&& c.server.max_connections == 2000
    &&& c.server.max_connections_per_ip == 20
    &&& c.server.connection_timeout_ms == 10000
    &&& c.server.idle_timeout_ms == 120000
    &&& c.server.tcp_nodelay
    &&& c.server.tcp_keepalive
    &&& c.server.tcp_keepalive_interval_ms == 30000
    &&& c.server.socket_recv_buffer_size == Some(65536usize)
    &&& c.server.socket_send_buffer_size == Some(65536usize)
    &&& c.server.backlog == 512
    &&& !c.server.reuse_port
    &&& c.memory.enable_memory_pooling
    &&& c.memory.small_buffer_pool_size == 50
    &&& c.memory.medium_buffer_pool_size == 25
    &&& c.memory.large_buffer_pool_size == 10
    &&& c.memory.small_buffer_capacity == 1024
    &&& c.memory.medium_buffer_capacity == 4096
    &&& c.memory.large_buffer_capacity == 16384
    &&& c.memory.message_pool_size == 500
    &&& !c.memory.enable_zero_copy
    &&& c.memory.max_message_size == 65536
    &&& c.memory.memory_limit_mb == Some(512usize)
    &&& !c.networking.enable_vectored_io
    &&& c.networking.max_batch_size == 8192
    &&& c.networking.max_batch_count == 4
    &&& c.networking.write_buffer_size == 8192
    &&& c.networking.read_buffer_size == 8192
    &&& c.networking.enable_compression
    &&& c.networking.compression_threshold == 512
    &&& !c.networking.enable_tls
    &&& c.networking.tls_cert_path is None
    &&& c.networking.tls_key_path is None
    &&& c.performance.worker_threads == 2
    &&& !c.performance.enable_thread_affinity
    &&& c.performance.thread_stack_size_kb == 256
    &&& !c.performance.enable_numa_awareness
    &&& c.performance.gc_threshold_mb == 128
    &&& !c.performance.enable_jemalloc
    &&& c.performance.prefetch_distance == 32
    &&& !c.performance.enable_branch_prediction
    &&& c.monitoring.enable_metrics
    &&& c.monitoring.metrics_bind_addr@ == "127.0.0.1:9090"@
    &&& !c.monitoring.enable_tracing
    &&& c.monitoring.tracing_level@ == "warn"@
    &&& !c.monitoring.enable_profiling
    &&& c.monitoring.profiling_sample_rate_ppm == 1000
    &&& c.monitoring.metrics_collection_interval_ms == 30000
    &&& c.monitoring.enable_health_checks
    &&& c.monitoring.health_check_interval_ms == 60000
    &&& c.security.enable_authentication
    &&& c.security.api_keys@.len() == 1 && c.security.api_keys@[0]@ == "supersecretkey"@
    &&& c.security.enable_rate_limiting
    &&& c.security.rate_limit_per_connection == 100
    &&& c.security.rate_limit_per_ip == 500
    &&& c.security.rate_limit_window_ms == 1000
    &&& !c.security.enable_ddos_protection
    &&& c.security.max_payload_size == 32768
    &&& !c.security.enable_audit_logging
}

impl ProductionConfig {
    /// Low-latency profile (trading, gaming): small batches, no compression or tracing. Sized for `cpus` cores.
    pub fn low_latency_profile_for(cpus: usize) -> (c: ProductionConfig)
        ensures
            is_low_latency(c, cpus),
    {
        ProductionConfig {
            profile: PerformanceProfile::LowLatency,
            server: AdvancedServerConfig {
                bind_addr: str_to_string("0.0.0.0:8080"),
                max_connections: 5000,
                max_connections_per_ip: 50,
                connection_timeout_ms: 5000,
                idle_timeout_ms: 30000,
                tcp_nodelay: true,
                tcp_keepalive: true,
                tcp_keepalive_interval_ms: 1000,
                socket_recv_buffer_size: Some(262144),
                socket_send_buffer_size: Some(262144),
                backlog: 1024,
                reuse_port: true,
            },
            memory: MemoryConfig {
                enable_memory_pooling: true,
                small_buffer_pool_size: 200,
                medium_buffer_pool_size: 100,
                large_buffer_pool_size: 50,
                small_buffer_capacity: 2048,
                medium_buffer_capacity: 8192,
                large_buffer_capacity: 32768,
                message_pool_size: 2000,
                enable_zero_copy: true,
                max_message_size: 65536,
                memory_limit_mb: Some(2048),
            },
            networking: NetworkConfig {
                enable_vectored_io: true,
                max_batch_size: 8192,
                max_batch_count: 4,
                write_buffer_size: 16384,
                read_buffer_size: 16384,
                enable_compression: false,
                compression_threshold: 0,
                enable_tls: false,
                tls_cert_path: None,
                tls_key_path: None,
            },
            performance: PerformanceConfig {
                worker_threads: cpus,
                enable_thread_affinity: true,
                thread_stack_size_kb: 512,
                enable_numa_awareness: true,
                gc_threshold_mb: 512,
                enable_jemalloc: true,
                prefetch_distance: 64,
                enable_branch_prediction: true,
            },
            monitoring: MonitoringConfig {
                enable_metrics: true,
                metrics_bind_addr: str_to_string("127.0.0.1:9090"),
                enable_tracing: false,
                tracing_level: str_to_string("error"),
                enable_profiling: false,
                profiling_sample_rate_ppm: 10000,
                metrics_collection_interval_ms: 1000,
                enable_health_checks: true,
                health_check_interval_ms: 5000,
            },
            security: SecurityConfig {
                enable_authentication: false,
                api_keys: Vec::new(),
                enable_rate_limiting: true,
                rate_limit_per_connection: 10000,
                rate_limit_per_ip: 50000,
                rate_limit_window_ms: 1000,
                enable_ddos_protection: true,
                max_payload_size: 65536,
                enable_audit_logging: false,
            },
        }
    }

    /// Low-latency profile (trading, gaming): small batches, no compression or tracing. Sized for the machine's cores.
    pub fn low_latency_profile() -> (c: ProductionConfig)
        ensures
            exists|cpus: usize| cpus >= 1 && #[trigger] is_low_latency(c, cpus),
    {
        ProductionConfig::low_latency_profile_for(cpu_count())
    }

    /// High-throughput profile (data processing): large batches, compression, twice the cores as workers. Sized for `cpus` cores.
    pub fn high_throughput_profile_for(cpus: usize) -> (c: ProductionConfig)
        ensures
            is_high_throughput(c, cpus),
    {
        let doubled = double_saturating(cpus);
        ProductionConfig {
            profile: PerformanceProfile::HighThroughput,
            server: AdvancedServerConfig {
                bind_addr: str_to_string("0.0.0.0:8080"),
                max_connections: 20000,
                max_connections_per_ip: 200,
                connection_timeout_ms: 30000,
                idle_timeout_ms: 300000,
                tcp_nodelay: false,
                tcp_keepalive: true,
                tcp_keepalive_interval_ms: 10000,
                socket_recv_buffer_size: Some(1048576),
                socket_send_buffer_size: Some(1048576),
                backlog: 4096,
                reuse_port: true,
            },
            memory: MemoryConfig {
                enable_memory_pooling: true,
                small_buffer_pool_size: 500,
                medium_buffer_pool_size: 200,
                large_buffer_pool_size: 100,
                small_buffer_capacity: 4096,
                medium_buffer_capacity: 16384,
                large_buffer_capacity: 65536,
                message_pool_size: 5000,
                enable_zero_copy: true,
                max_message_size: 1048576,
                memory_limit_mb: Some(8192),
            },
            networking: NetworkConfig {
                enable_vectored_io: true,
                max_batch_size: 262144,
                max_batch_count: 64,
                write_buffer_size: 131072,
                read_buffer_size: 131072,
                enable_compression: true,
                compression_threshold: 1024,
                enable_tls: false,
                tls_cert_path: None,
                tls_key_path: None,
            },
            performance: PerformanceConfig {
                worker_threads: doubled,
                enable_thread_affinity: true,
                thread_stack_size_kb: 1024,
                enable_numa_awareness: true,
                gc_threshold_mb: 2048,
                enable_jemalloc: true,
                prefetch_distance: 256,
                enable_branch_prediction: true,
            },
            monitoring: MonitoringConfig {
                enable_metrics: true,
                metrics_bind_addr: str_to_string("127.0.0.1:9090"),
                enable_tracing: true,
                tracing_level: str_to_string("info"),
                enable_profiling: true,
                profiling_sample_rate_ppm: 100000,
                metrics_collection_interval_ms: 5000,
                enable_health_checks: true,
                health_check_interval_ms: 30000,
            },
            security: SecurityConfig {
                enable_authentication: true,
                api_keys: one_string("default-key"),
                enable_rate_limiting: true,
                rate_limit_per_connection: 5000,
                rate_limit_per_ip: 25000,
                rate_limit_window_ms: 1000,
                enable_ddos_protection: true,
                max_payload_size: 1048576,
                enable_audit_logging: true,
            },
        }
    }

    /// High-throughput profile (data processing): large batches, compression, twice the cores as workers. Sized for the machine's cores.
    pub fn high_throughput_profile() -> (c: ProductionConfig)
        ensures
            exists|cpus: usize| cpus >= 1 && #[trigger] is_high_throughput(c, cpus),
    {
        ProductionConfig::high_throughput_profile_for(cpu_count())
    }

    /// Balanced profile for general production use. Sized for `cpus` cores.
    pub fn balanced_profile_for(cpus: usize) -> (c: ProductionConfig)
        ensures
            is_balanced(c, cpus),
    {
        ProductionConfig {
            profile: PerformanceProfile::Balanced,
            server: AdvancedServerConfig {
                bind_addr: str_to_string("0.0.0.0:8080"),
                max_connections: 10000,
                max_connections_per_ip: 100,
                connection_timeout_ms: 15000,
                idle_timeout_ms: 180000,
                tcp_nodelay: true,
                tcp_keepalive: true,
                tcp_keepalive_interval_ms: 5000,
                socket_recv_buffer_size: Some(524288),
                socket_send_buffer_size: Some(524288),
                backlog: 2048,
                reuse_port: true,
            },
            memory: MemoryConfig {
                enable_memory_pooling: true,
                small_buffer_pool_size: 150,
                medium_buffer_pool_size: 75,
                large_buffer_pool_size: 25,
                small_buffer_capacity: 2048,
                medium_buffer_capacity: 8192,
                large_buffer_capacity: 32768,
                message_pool_size: 1500,
                enable_zero_copy: true,
                max_message_size: 262144,
                memory_limit_mb: Some(4096),
            },
            networking: NetworkConfig {
                enable_vectored_io: true,
                max_batch_size: 65536,
                max_batch_count: 16,
                write_buffer_size: 65536,
                read_buffer_size: 65536,
                enable_compression: true,
                compression_threshold: 4096,
                enable_tls: false,
                tls_cert_path: None,
                tls_key_path: None,
            },
            performance: PerformanceConfig {
                worker_threads: cpus,
                enable_thread_affinity: false,
                thread_stack_size_kb: 512,
                enable_numa_awareness: false,
                gc_threshold_mb: 1024,
                enable_jemalloc: false,
                prefetch_distance: 64,
                enable_branch_prediction: false,
            },
            monitoring: MonitoringConfig {
                enable_metrics: true,
                metrics_bind_addr: str_to_string("127.0.0.1:9090"),
                enable_tracing: true,
                tracing_level: str_to_string("info"),
                enable_profiling: false,
                profiling_sample_rate_ppm: 10000,
                metrics_collection_interval_ms: 10000,
                enable_health_checks: true,
                health_check_interval_ms: 30000,
            },
            security: SecurityConfig {
                enable_authentication: true,
                api_keys: one_string("supersecretkey"),
                enable_rate_limiting: true,
                rate_limit_per_connection: 1000,
                rate_limit_per_ip: 5000,
                rate_limit_window_ms: 1000,
                enable_ddos_protection: true,
                max_payload_size: 262144,
                enable_audit_logging: false,
            },
        }
    }

    /// Balanced profile for general production use. Sized for the machine's cores.
    pub fn balanced_profile() -> (c: ProductionConfig)
        ensures
            exists|cpus: usize| cpus >= 1 && #[trigger] is_balanced(c, cpus),
    {
        ProductionConfig::balanced_profile_for(cpu_count())
    }

    /// Resource-efficient profile for constrained containers. Sized for `cpus` cores.
    pub fn resource_efficient_profile_for(cpus: usize) -> (c: ProductionConfig)
        ensures
            is_resource_efficient(c, cpus),
    {
        ProductionConfig {
            profile: PerformanceProfile::ResourceEfficient,
            server: AdvancedServerConfig {
                bind_addr: str_to_string("0.0.0.0:8080"),
                max_connections: 2000,
                max_connections_per_ip: 20,
                connection_timeout_ms: 10000,
                idle_timeout_ms: 120000,
                tcp_nodelay: true,
                tcp_keepalive: true,
                tcp_keepalive_interval_ms: 30000,
                socket_recv_buffer_size: Some(65536),
                socket_send_buffer_size: Some(65536),
                backlog: 512,
                reuse_port: false,
            },
            memory: MemoryConfig {
                enable_memory_pooling: true,
                small_buffer_pool_size: 50,
                medium_buffer_pool_size: 25,
                large_buffer_pool_size: 10,
                small_buffer_capacity: 1024,
                medium_buffer_capacity: 4096,
                large_buffer_capacity: 16384,
                message_pool_size: 500,
                enable_zero_copy: false,
                max_message_size: 65536,
                memory_limit_mb: Some(512),
            },
            networking: NetworkConfig {
                enable_vectored_io: false,
                max_batch_size: 8192,
                max_batch_count: 4,
                write_buffer_size: 8192,
                read_buffer_size: 8192,
                enable_compression: true,
                compression_threshold: 512,
                enable_tls: false,
                tls_cert_path: None,
                tls_key_path: None,
            },
            performance: PerformanceConfig {
                worker_threads: 2,
                enable_thread_affinity: false,
                thread_stack_size_kb: 256,
                enable_numa_awareness: false,
                gc_threshold_mb: 128,
                enable_jemalloc: false,
                prefetch_distance: 32,
                enable_branch_prediction: false,
            },
            monitoring: MonitoringConfig {
                enable_metrics: true,
                metrics_bind_addr: str_to_string("127.0.0.1:9090"),
                enable_tracing: false,
                tracing_level: str_to_string("warn"),
                enable_profiling: false,
                profiling_sample_rate_ppm: 1000,
                metrics_collection_interval_ms: 30000,
                enable_health_checks: true,
                health_check_interval_ms: 60000,
            },
            security: SecurityConfig {
                enable_authentication: true,
                api_keys: one_string("supersecretkey"),
                enable_rate_limiting: true,
                rate_limit_per_connection: 100,
                rate_limit_per_ip: 500,
                rate_limit_window_ms: 1000,
                enable_ddos_protection: false,
                max_payload_size: 32768,
                enable_audit_logging: false,
            },
        }
    }

    /// Resource-efficient profile for constrained containers. Sized for the machine's cores.
    pub fn resource_efficient_profile() -> (c: ProductionConfig)
        ensures
            exists|cpus: usize| cpus >= 1 && #[trigger] is_resource_efficient(c, cpus),
    {
        ProductionConfig::resource_efficient_profile_for(cpu_count())
    }

}
/// The worker count for a profile on `cpus` cores: the core count, twice it
/// for throughput (capped), half of it (at least 1) for resource
/// efficiency, and the current count for custom tuning.
pub open spec fn tuned_workers(profile: PerformanceProfile, cpus: usize, current: usize) -> usize {
    match profile {
        PerformanceProfile::LowLatency => cpus,
        PerformanceProfile::HighThroughput => double_sat(cpus),
        PerformanceProfile::Balanced => cpus,
        PerformanceProfile::ResourceEfficient => if cpus / 2 < 1 { 1 } else { (cpus / 2) as usize },
        PerformanceProfile::Custom => current,
    }
}

/// The connection ceiling for `mb` megabytes of memory.
pub open spec fn connection_ceiling(mb: usize) -> usize {
    if mb < 1024 {
        1000
    } else if mb < 4096 {
        5000
    } else if mb < 16384 {
        10000
    } else {
        20000
    }
}

/// The memory assumed available, in megabytes.
pub const AVAILABLE_MEMORY_MB: usize = 4096;

/// The profile a name asks for: `low_latency`, `high_throughput`,
/// `balanced` or `resource_efficient`, in any case; anything else is balanced.
pub open spec fn profile_named(name: Seq<char>) -> PerformanceProfile {
    let n = lowercase_of(name);
    if n == "low_latency"@ {
        PerformanceProfile::LowLatency
    } else if n == "high_throughput"@ {
        PerformanceProfile::HighThroughput
    } else if n == "resource_efficient"@ {
        PerformanceProfile::ResourceEfficient
    } else {
        PerformanceProfile::Balanced
    }
}

impl ProductionConfig {
    /// Tunes for `cpus` cores and `available_mb` megabytes: the worker
    /// count by profile, the memory limit to at most three quarters of the
    /// memory, and the connection limit to the ceiling for the memory.
    pub fn auto_tune_with(&mut self, cpus: usize, available_mb: usize)
        requires
            available_mb <= usize::MAX / 3,
        ensures
            final(self).performance.worker_threads == tuned_workers(old(self).profile, cpus, old(self).performance.worker_threads),
            final(self).memory.memory_limit_mb == (match old(self).memory.memory_limit_mb {
                Some(l) => Some(if l < available_mb * 3 / 4 { l } else { (available_mb * 3 / 4) as usize }),
                None => None,
            }),
            final(self).server.max_connections == (if connection_ceiling(available_mb) < old(self).server.max_connections {
                connection_ceiling(available_mb)
            } else {
                old(self).server.max_connections
            }),
            final(self).profile == old(self).profile,
    {
        self.performance.worker_threads = match self.profile {
            PerformanceProfile::LowLatency => cpus,
            PerformanceProfile::HighThroughput => double_saturating(cpus),
            PerformanceProfile::Balanced => cpus,
            PerformanceProfile::ResourceEfficient => if cpus / 2 < 1 { 1 } else { cpus / 2 },
            PerformanceProfile::Custom => self.performance.worker_threads,
        };
        let cap = available_mb * 3 / 4;
        match self.memory.memory_limit_mb {
            Some(l) => {
                self.memory.memory_limit_mb = Some(if l < cap { l } else { cap });
            },
            None => {},
        }
        let ceiling: usize = if available_mb < 1024 {
            1000
        } else if available_mb < 4096 {
            5000
        } else if available_mb < 16384 {
            10000
        } else {
            20000
        };
        if ceiling < self.server.max_connections {
            self.server.max_connections = ceiling;
        }
    }

    /// Tunes for the machine's cores and 4096 MB of memory.
    pub fn auto_tune(&mut self)
        ensures
            exists|cpus: usize| cpus >= 1 && final(self).performance.worker_threads
                == #[trigger] tuned_workers(old(self).profile, cpus, old(self).performance.worker_threads),
            final(self).profile == old(self).profile,
    {
        let cpus = cpu_count();
        self.auto_tune_with(cpus, AVAILABLE_MEMORY_MB);
    }

    /// Warnings about risky settings: a connection limit above 65536, a
    /// message size above 10 MiB, a batch size above 1 MiB, and memory
    /// pooling off under the low-latency profile; in that order.
    pub fn validate(&self) -> (w: Vec<String>)
        ensures
            w@.map_values(|s: String| s@) == validation_warnings(*self),
    {
        let mut w: Vec<String> = Vec::new();
        if self.server.max_connections > 65536 {
            w.push(str_to_string("Very high connection limit may exhaust file descriptors"));
        }
        if self.memory.max_message_size > 10 * 1024 * 1024 {
            w.push(str_to_string("Large message size may impact performance"));
        }
        if self.networking.max_batch_size > 1024 * 1024 {
            w.push(str_to_string("Large batch size may increase latency"));
        }
        if !self.memory.enable_memory_pooling && self.profile == PerformanceProfile::LowLatency {
            w.push(str_to_string("Memory pooling recommended for low-latency profile"));
        }
        proof {
            assert(w@.map_values(|s: String| s@) =~= validation_warnings(*self));
        }
        w
    }

    /// The profile a name asks for (see `profile_named`), sized for the
    /// machine's cores.
    pub fn profile_by_name(name: &str) -> (c: ProductionConfig)
        ensures
            c.profile == profile_named(name@),
    {
        let n = str_to_lowercase(name);
        if str_equal(n.as_str(), "low_latency") {
            ProductionConfig::low_latency_profile()
        } else if str_equal(n.as_str(), "high_throughput") {
            ProductionConfig::high_throughput_profile()
        } else if str_equal(n.as_str(), "resource_efficient") {
            ProductionConfig::resource_efficient_profile()
        } else {
            ProductionConfig::balanced_profile()
        }
    }
}

/// The warnings `validate` gives for a configuration.
pub open spec fn validation_warnings(c: ProductionConfig) -> Seq<Seq<char>> {
    let a = if c.server.max_connections > 65536 {
        seq!["Very high connection limit may exhaust file descriptors"@]
    } else {
        Seq::<Seq<char>>::empty()
    };
    let b = if c.memory.max_message_size > 10485760 {
        seq!["Large message size may impact performance"@]
    } else {
        Seq::<Seq<char>>::empty()
    };
    let d = if c.networking.max_batch_size > 1048576 {
        seq!["Large batch size may increase latency"@]
    } else {
        Seq::<Seq<char>>::empty()
    };
    let e = if !c.memory.enable_memory_pooling && c.profile == PerformanceProfile::LowLatency {
        seq!["Memory pooling recommended for low-latency profile"@]
    } else {
        Seq::<Seq<char>>::empty()
    };
    a + b + d + e
}

impl Default for ProductionConfig {
    /// The balanced profile.
    fn default() -> (c: ProductionConfig)
        ensures
            exists|cpus: usize| cpus >= 1 && #[trigger] is_balanced(c, cpus),
    {
        ProductionConfig::balanced_profile()
    }
}

/// The settings that can change while the broker runs.
#[derive(Debug, Clone)]
pub struct RuntimeConfig {
    pub rate_limits: u32,
    pub max_message_size: usize,
    pub enable_metrics: bool,
    pub log_level: String,
}

impl RuntimeConfig {
    /// The runtime settings of a configuration.
    pub fn new(config: &ProductionConfig) -> (r: RuntimeConfig)
        ensures
            r.rate_limits == config.security.rate_limit_per_connection,
            r.max_message_size == config.memory.max_message_size,
            r.enable_metrics == config.monitoring.enable_metrics,
            r.log_level@ == config.monitoring.tracing_level@,
    {
        RuntimeConfig {
            rate_limits: config.security.rate_limit_per_connection,
            max_message_size: config.memory.max_message_size,
            enable_metrics: config.monitoring.enable_metrics,
            log_level: config.monitoring.tracing_level.clone(),
        }
    }
}

} // verus!
