//! The broker's settings, with their defaults.

use vstd::prelude::*;
use crate::queue::OverflowPolicy;
use crate::text::str_to_string;

verus! {

/// Listen address and connection limits.
#[derive(Debug, Clone)]
pub struct ServerConfig {
    pub bind_addr: String,
    pub max_connections: usize,
    pub max_message_size_bytes: usize,
}

impl Default for ServerConfig {
    /// 127.0.0.1:7878, 256 connections, 1 MiB messages.
    fn default() -> (c: ServerConfig)
        ensures
            c.bind_addr@ == "127.0.0.1:7878"@,
            c.max_connections == 256,
            c.max_message_size_bytes == 1048576,
    {
        ServerConfig {
            bind_addr: str_to_string("127.0.0.1:7878"),
            max_connections: 256,
            max_message_size_bytes: 1024 * 1024,
        }
    }
}

/// API keys allowed to publish and subscribe; none means no authentication.
#[derive(Debug, Clone)]
pub struct AuthConfig {
    pub api_keys: Vec<String>,
}

impl Default for AuthConfig {
    /// No keys.
    fn default() -> (c: AuthConfig)
        ensures
            c.api_keys@.len() == 0,
    {
        AuthConfig { api_keys: Vec::new() }
    }
}

/// Queue sizes and the overflow policy.
#[derive(Debug, Clone)]
pub struct QueueConfig {
    /// Capacity of each topic's input queue.
    pub topic_capacity: usize,
    /// Capacity of each subscriber's queue.
    pub subscriber_capacity: usize,
    pub overflow_policy: OverflowPolicy,
}

impl Default for QueueConfig {
    /// 1000 per topic, 512 per subscriber, dropping the oldest on overflow.
    fn default() -> (c: QueueConfig)
        ensures
            c.topic_capacity == 1000,
            c.subscriber_capacity == 512,
            c.overflow_policy == OverflowPolicy::DropOldest,
    {
        QueueConfig { topic_capacity: 1000, subscriber_capacity: 512, overflow_policy: OverflowPolicy::default() }
    }
}

/// Write-ahead log settings.
#[derive(Debug, Clone)]
pub struct WalConfig {
    pub directory: String,
    pub segment_size_bytes: usize,
    pub flush_interval_ms: u64,
}

impl Default for WalConfig {
    /// `./wal`, 1 MiB segments, flushed every 5 s.
    fn default() -> (c: WalConfig)
        ensures
            c.directory@ == "./wal"@,
            c.segment_size_bytes == 1048576,
            c.flush_interval_ms == 5000,
    {
        WalConfig { directory: str_to_string("./wal"), segment_size_bytes: 1024 * 1024, flush_interval_ms: 5000 }
    }
}

/// The metrics endpoint.
#[derive(Debug, Clone)]
pub struct MetricsConfig {
    pub bind_addr: String,
}

impl Default for MetricsConfig {
    /// 127.0.0.1:9090.
    fn default() -> (c: MetricsConfig)
        ensures
            c.bind_addr@ == "127.0.0.1:9090"@,
    {
        MetricsConfig { bind_addr: str_to_string("127.0.0.1:9090") }
    }
}

/// Delivery batching and the default time to live.
#[derive(Debug, Clone, Copy, PartialEq, Eq, Structural)]
pub struct DeliveryConfig {
    /// Most messages per flush.
    pub max_batch: usize,
    /// Most bytes per flush.
    pub max_batch_bytes: usize,
    pub flush_interval_ms: u64,
    /// Fan-out shards per topic; 0 chooses automatically.
    pub fanout_shards: usize,
    /// Time to live of new messages; 0 means forever.
    pub default_ttl_ms: u64,
}

impl Default for DeliveryConfig {
    /// 64 messages or 256 KiB per flush, every millisecond, automatic
    /// sharding, messages that never expire.
    fn default() -> (c: DeliveryConfig)
        ensures
            c == (DeliveryConfig {
                max_batch: 64,
                max_batch_bytes: 262144,
                flush_interval_ms: 1,
                fanout_shards: 0,
                default_ttl_ms: 0,
            }),
    {
        DeliveryConfig { max_batch: 64, max_batch_bytes: 256 * 1024, flush_interval_ms: 1, fanout_shards: 0, default_ttl_ms: 0 }
    }
}

/// Batch processing settings.
#[derive(Debug, Clone, Copy, PartialEq, Eq, Structural)]
pub struct BatchProcessingConfig {
    pub ttl_max_batch_size: usize,
    pub ttl_max_batch_delay_ms: u64,
    pub fanout_max_batch_size: usize,
    pub fanout_max_batch_delay_ms: u64,
    pub channel_capacity: usize,
}

impl Default for BatchProcessingConfig {
    /// TTL batches of 1000 within 10 ms, fan-out batches of 2000 within
    /// 5 ms, channels of 16384.
    fn default() -> (c: BatchProcessingConfig)
        ensures
            c == (BatchProcessingConfig {
                ttl_max_batch_size: 1000,
                ttl_max_batch_delay_ms: 10,
                fanout_max_batch_size: 2000,
                fanout_max_batch_delay_ms: 5,
                channel_capacity: 16384,
            }),
    {
        BatchProcessingConfig {
            ttl_max_batch_size: 1000,
            ttl_max_batch_delay_ms: 10,
            fanout_max_batch_size: 2000,
            fanout_max_batch_delay_ms: 5,
            channel_capacity: 16384,
        }
    }
}

/// Thread pinning settings.
#[derive(Debug, Clone, Copy, PartialEq, Eq, Structural)]
pub struct CpuAffinityConfig {
    pub enable_affinity: bool,
    pub pin_fanout_workers: bool,
    pub pin_timer_tasks: bool,
    pub pin_network_tasks: bool,
    pub core_offset: usize,
}

impl Default for CpuAffinityConfig {
    /// Pinning off (this build has no affinity support), every kind of
    /// task marked for pinning, from core 0.
    fn default() -> (c: CpuAffinityConfig)
        ensures
            c == (CpuAffinityConfig {
                enable_affinity: false,
                pin_fanout_workers: true,
                pin_timer_tasks: true,
                pin_network_tasks: true,
                core_offset: 0,
            }),
    {
        CpuAffinityConfig {
            enable_affinity: false,
            pin_fanout_workers: true,
            pin_timer_tasks: true,
            pin_network_tasks: true,
            core_offset: 0,
        }
    }
}

/// Socket settings.
#[derive(Debug, Clone, Copy, PartialEq, Eq, Structural)]
pub struct NetworkOptimizationConfig {
    pub tcp_nodelay: bool,
    pub send_buffer_size: usize,
    pub recv_buffer_size: usize,
    pub reuse_addr: bool,
    pub reuse_port: bool,
    pub keepalive_timeout_secs: u64,
}

impl Default for NetworkOptimizationConfig {
    /// No delay, 64 KiB buffers, address reuse without port reuse, 5-minute keep-alive.
    fn default() -> (c: NetworkOptimizationConfig)
        ensures
            c == (NetworkOptimizationConfig {
                tcp_nodelay: true,
                send_buffer_size: 65536,
                recv_buffer_size: 65536,
                reuse_addr: true,
                reuse_port: false,
                keepalive_timeout_secs: 300,
            }),
    {
        NetworkOptimizationConfig {
            tcp_nodelay: true,
            send_buffer_size: 64 * 1024,
            recv_buffer_size: 64 * 1024,
            reuse_addr: true,
            reuse_port: false,
            keepalive_timeout_secs: 300,
        }
    }
}

/// Performance features.
#[derive(Debug, Clone, Copy, PartialEq, Eq, Structural)]
pub struct PerformanceConfig {
    pub enable_timer_wheel: bool,
    pub timer_wheel_resolution_ms: u64,
    pub enable_memory_pools: bool,
    pub warm_up_pools: bool,
    pub enable_batch_processing: bool,
    pub batch_config: BatchProcessingConfig,
    pub cpu_affinity: CpuAffinityConfig,
    pub network_optimizations: NetworkOptimizationConfig,
}

impl Default for PerformanceConfig {
    /// Every feature on, a 10 ms timer wheel, and the defaults of the parts.
    fn default() -> (c: PerformanceConfig)
        ensures
            c.enable_timer_wheel && c.enable_memory_pools && c.warm_up_pools && c.enable_batch_processing,
            c.timer_wheel_resolution_ms == 10,
            c.batch_config.ttl_max_batch_size == 1000,
            c.cpu_affinity.core_offset == 0,
            c.network_optimizations.tcp_nodelay,
    {
        PerformanceConfig {
            enable_timer_wheel: true,
            timer_wheel_resolution_ms: 10,
            enable_memory_pools: true,
            warm_up_pools: true,
            enable_batch_processing: true,
            batch_config: BatchProcessingConfig::default(),
            cpu_affinity: CpuAffinityConfig::default(),
            network_optimizations: NetworkOptimizationConfig::default(),
        }
    }
}

/// All settings.
#[derive(Debug, Clone)]
pub struct Config {
    pub server: ServerConfig,
    pub auth: AuthConfig,
    pub queues: QueueConfig,
    pub wal: WalConfig,
    pub metrics: MetricsConfig,
    pub delivery: DeliveryConfig,
    pub performance: PerformanceConfig,
}

impl Default for Config {
    /// The defaults of every part.
    fn default() -> (c: Config)
        ensures
            c.server.max_connections == 256,
            c.auth.api_keys@.len() == 0,
            c.queues.subscriber_capacity == 512,
            c.wal.flush_interval_ms == 5000,
            c.delivery.max_batch == 64,
            c.performance.timer_wheel_resolution_ms == 10,
    {
        Config {
            server: ServerConfig::default(),
            auth: AuthConfig::default(),
            queues: QueueConfig::default(),
            wal: WalConfig::default(),
            metrics: MetricsConfig::default(),
            delivery: DeliveryConfig::default(),
            performance: PerformanceConfig::default(),
        }
    }
}

} // verus!
