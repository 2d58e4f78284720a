//! BlipMQ core library: wire framing, topics and queues, delivery
//! guarantees, authentication and the bookkeeping around them.

pub mod accounts;
pub mod admin;
pub mod advanced_config;
pub mod api;
pub mod assoc;
pub mod auth;
pub mod auth_manager;
pub mod backoff;
pub mod batch;
pub mod bufs;
pub mod clock;
pub mod codec;
pub mod collector;
pub mod command;
pub mod config;
pub mod connection;
pub mod connections;
pub mod counters;
pub mod crypto;
pub mod delivery;
pub mod dmap;
pub mod fanout;
pub mod dlq;
pub mod health;
pub mod lockfree;
pub mod message;
pub mod monitoring;
pub mod performance;
pub mod pool;
pub mod protocol;
pub mod qos;
pub mod session;
pub mod shell;
pub mod shutdown;
pub mod queue;
pub mod registry;
pub mod report;
pub mod text;
pub mod timer;
pub mod vectored_io;
pub mod wal;
