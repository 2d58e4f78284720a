//! Judgements on a metrics snapshot for the monitoring endpoints: which
//! alerts are active, the busiest topic and the topics' message total.
//! Rates and percentages are compared exactly, by cross-multiplication.

use vstd::prelude::*;
use crate::collector::{MetricsSnapshot, TopicMetricsSnapshot};

verus! {

/// The memory budget the alerts assume: one gibibyte.
pub const MEMORY_BUDGET_BYTES: u64 = 1_073_741_824;

/// How serious an alert is.
#[derive(Debug, Clone, Copy, PartialEq, Eq, Structural)]
pub enum AlertSeverity {
    Warning,
    Critical,
}

/// What an alert is about.
#[derive(Debug, Clone, Copy, PartialEq, Eq, Structural)]
pub enum SystemAlertKind {
    /// Memory use above 80% of the budget.
    HighMemory,
    /// Mean delivery latency above 1000 ms.
    HighLatency,
    /// Fewer than 95% of published messages delivered.
    LowSuccessRate,
}

/// An active alert.
#[derive(Debug, Clone, Copy, PartialEq, Eq, Structural)]
pub struct SystemAlert {
    pub kind: SystemAlertKind,
    pub severity: AlertSeverity,
    /// The snapshot's time stamp.
    pub triggered_at: u64,
}

/// Memory use is above `percent` percent of the budget.
pub open spec fn memory_above(bytes: u64, percent: nat) -> bool {
    bytes * 100 > percent * MEMORY_BUDGET_BYTES
}

/// The mean of `count` latencies summing to `sum_ms` is above `limit_ms`
/// (no latency recorded means a mean of 0).
pub open spec fn mean_above(sum_ms: u64, count: u64, limit_ms: nat) -> bool {
    count > 0 && sum_ms > limit_ms * count
}

/// Fewer than `percent` percent of the published messages were delivered
/// (nothing published counts as full success).
pub open spec fn success_below(delivered: u64, published: u64, percent: nat) -> bool {
    published > 0 && delivered * 100 < percent * published
}

/// The alerts a snapshot raises, in this order: memory (critical above 95%),
/// latency, success rate (critical).
pub open spec fn alerts_of(s: MetricsSnapshot) -> Seq<SystemAlert> {
    let mem = if memory_above(s.memory_usage_bytes, 80) {
        seq![SystemAlert {
            kind: SystemAlertKind::HighMemory,
            severity: if memory_above(s.memory_usage_bytes, 95) { AlertSeverity::Critical } else { AlertSeverity::Warning },
            triggered_at: s.timestamp,
        }]
    } else {
        Seq::empty()
    };
    let lat = if mean_above(s.delivery_latency.sum_ms, s.delivery_latency.count, 1000) {
        seq![SystemAlert { kind: SystemAlertKind::HighLatency, severity: AlertSeverity::Warning, triggered_at: s.timestamp }]
    } else {
        Seq::empty()
    };
    let suc = if success_below(s.messages_delivered, s.messages_published, 95) {
        seq![SystemAlert { kind: SystemAlertKind::LowSuccessRate, severity: AlertSeverity::Critical, triggered_at: s.timestamp }]
    } else {
        Seq::empty()
    };
    mem + lat + suc
}

/// The active alerts of a snapshot.
pub fn system_alerts(s: &MetricsSnapshot) -> (r: Vec<SystemAlert>)
    ensures
        r@ == alerts_of(*s),
{
    let mut r: Vec<SystemAlert> = Vec::new();
    let mem = (s.memory_usage_bytes as u128) * 100;
    if mem > 80 * (MEMORY_BUDGET_BYTES as u128) {
        let severity = if mem > 95 * (MEMORY_BUDGET_BYTES as u128) {
            AlertSeverity::Critical
        } else {
            AlertSeverity::Warning
        };
        r.push(SystemAlert { kind: SystemAlertKind::HighMemory, severity, triggered_at: s.timestamp });
    }
    let ghost after_mem = r@;
    let lat = &s.delivery_latency;
    if lat.count > 0 && (lat.sum_ms as u128) > 1000 * (lat.count as u128) {
        r.push(SystemAlert { kind: SystemAlertKind::HighLatency, severity: AlertSeverity::Warning, triggered_at: s.timestamp });
    }
    let ghost after_lat = r@;
    if s.messages_published > 0 && (s.messages_delivered as u128) * 100 < 95 * (s.messages_published as u128) {
        r.push(SystemAlert {
            kind: SystemAlertKind::LowSuccessRate,
            severity: AlertSeverity::Critical,
            triggered_at: s.timestamp,
        });
    }
    proof {
        let sp = alerts_of(*s);
        assert(r@ =~= sp);
    }
    r
}

/// The busiest of the topics: the last one with the most messages
/// published, none for no topics.
pub open spec fn busiest(ts: Seq<TopicMetricsSnapshot>) -> Option<int>
    decreases ts.len(),
{
    if ts.len() == 0 {
        None
    } else {
        match busiest(ts.drop_last()) {
            None => Some(ts.len() - 1),
            Some(i) => if ts.last().messages_published >= ts[i].messages_published {
                Some(ts.len() - 1)
            } else {
                Some(i)
            },
        }
    }
}

/// The position of the busiest topic of a snapshot.
pub fn busiest_topic(topics: &Vec<TopicMetricsSnapshot>) -> (r: Option<usize>)
    ensures
        match busiest(topics@) {
            None => r is None,
            Some(i) => r == Some(i as usize),
        },
{
    let mut best: Option<usize> = None;
    let mut i: usize = 0;
    while i < topics.len()
        invariant
            i <= topics@.len(),
            match busiest(topics@.subrange(0, i as int)) {
                None => best is None,
                Some(j) => best == Some(j as usize) && 0 <= j < i,
            },
        decreases topics@.len() - i,
    {
        proof {
            let a = topics@.subrange(0, i as int);
            let b = topics@.subrange(0, i + 1);
            assert(b.drop_last() =~= a);
            assert(b.last() == topics@[i as int]);
            match busiest(a) {
                None => {},
                Some(j) => {
                    assert(b[j] == topics@[j]);
                },
            }
        }
        match best {
            None => {
                best = Some(i);
            },
            Some(j) => {
                if topics[i].messages_published >= topics[j].messages_published {
                    best = Some(i);
                }
            },
        }
        i = i + 1;
    }
    proof {
        assert(topics@.subrange(0, topics@.len() as int) =~= topics@);
    }
    best
}

/// The messages published on all the topics together.
pub open spec fn published_total(ts: Seq<TopicMetricsSnapshot>) -> nat
    decreases ts.len(),
{
    if ts.len() == 0 {
        0
    } else {
        published_total(ts.drop_last()) + ts.last().messages_published as nat
    }
}

/// The messages published on all the topics together.
pub fn topic_message_total(topics: &Vec<TopicMetricsSnapshot>) -> (r: u128)
    ensures
        r == published_total(topics@),
{
    let mut total: u128 = 0;
    let mut i: usize = 0;
    while i < topics.len()
        invariant
            i <= topics@.len(),
            total == published_total(topics@.subrange(0, i as int)),
            total <= i * 0xffff_ffff_ffff_ffff,
        decreases topics@.len() - i,
    {
        proof {
            let a = topics@.subrange(0, i as int);
            let b = topics@.subrange(0, i + 1);
            assert(b.drop_last() =~= a);
            assert(i * 0xffff_ffff_ffff_ffff + 0xffff_ffff_ffff_ffff == (i + 1) * 0xffff_ffff_ffff_ffff)
                by (nonlinear_arith);
            assert((i + 1) * 0xffff_ffff_ffff_ffff <= 0xffff_ffff_ffff_ffff * 0xffff_ffff_ffff_ffff_u128)
                by (nonlinear_arith)
                requires
                    i + 1 <= 0xffff_ffff_ffff_ffff,
            ;
        }
        total = total + topics[i].messages_published as u128;
        i = i + 1;
    }
    proof {
        assert(topics@.subrange(0, topics@.len() as int) =~= topics@);
    }
    total
}

} // verus!
