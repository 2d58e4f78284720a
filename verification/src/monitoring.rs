//! Component health as the monitoring endpoint reports it: each check's
//! verdict from its reading, the overall verdict, and a bounded history of
//! metric snapshots.

use vstd::prelude::*;
use vstd::string::StringSliceAdditionalSpecFns;
use crate::text::{chars_of, contains, decimal, push_decimal, seq_contains, str_to_string, string_push_str};

verus! {

/// A component's health.
#[derive(Debug, Clone, Copy, PartialEq, Eq, Structural)]
pub enum HealthStatus {
    Healthy,
    Degraded,
    Unhealthy,
}

impl HealthStatus {
    /// The status as written in reports: `healthy`, `degraded` or
    /// `unhealthy`.
    pub fn label(self) -> (s: String)
        ensures
            s@ == (match self {
                HealthStatus::Healthy => "healthy"@,
                HealthStatus::Degraded => "degraded"@,
                HealthStatus::Unhealthy => "unhealthy"@,
            }),
    {
        match self {
            HealthStatus::Healthy => str_to_string("healthy"),
            HealthStatus::Degraded => str_to_string("degraded"),
            HealthStatus::Unhealthy => str_to_string("unhealthy"),
        }
    }
}

/// The result of one health check.
#[derive(Debug, Clone)]
pub struct HealthCheck {
    pub component: String,
    pub status: HealthStatus,
    pub message: String,
    pub response_time_ms: u64,
    /// When the check ran, in milliseconds since the epoch.
    pub last_check_ms: u64,
}

/// The memory limit the checks assume: four gibibytes.
pub const MEMORY_LIMIT_BYTES: u64 = 4_294_967_296;

/// The connection limit the checks assume.
pub const CONNECTION_LIMIT: u64 = 10_000;

/// The verdict on a usage of `used` out of `limit`: unhealthy above
/// `bad` percent, degraded above `high` percent.
pub open spec fn usage_status(used: u64, limit: u64, bad: nat, high: nat) -> HealthStatus {
    if used * 100 > bad * limit {
        HealthStatus::Unhealthy
    } else if used * 100 > high * limit {
        HealthStatus::Degraded
    } else {
        HealthStatus::Healthy
    }
}

/// Memory use: unhealthy above 90% of the limit, degraded above 75%.
pub fn memory_status(used: u64) -> (s: HealthStatus)
    ensures
        s == usage_status(used, MEMORY_LIMIT_BYTES, 90, 75),
{
    let u = (used as u128) * 100;
    if u > 90 * (MEMORY_LIMIT_BYTES as u128) {
        HealthStatus::Unhealthy
    } else if u > 75 * (MEMORY_LIMIT_BYTES as u128) {
        HealthStatus::Degraded
    } else {
        HealthStatus::Healthy
    }
}

/// Open connections: unhealthy above 95% of the limit, degraded above 80%.
pub fn connection_status(active: u64) -> (s: HealthStatus)
    ensures
        s == usage_status(active, CONNECTION_LIMIT, 95, 80),
{
    let u = (active as u128) * 100;
    if u > 95 * (CONNECTION_LIMIT as u128) {
        HealthStatus::Unhealthy
    } else if u > 80 * (CONNECTION_LIMIT as u128) {
        HealthStatus::Degraded
    } else {
        HealthStatus::Healthy
    }
}

/// The 99th percentile publish latency: unhealthy above 100 ms, degraded
/// above 50 ms.
pub fn latency_status(p99_ms: u64) -> (s: HealthStatus)
    ensures
        s == (if p99_ms > 100 {
            HealthStatus::Unhealthy
        } else if p99_ms > 50 {
            HealthStatus::Degraded
        } else {
            HealthStatus::Healthy
        }),
{
    if p99_ms > 100 {
        HealthStatus::Unhealthy
    } else if p99_ms > 50 {
        HealthStatus::Degraded
    } else {
        HealthStatus::Healthy
    }
}

/// The overall status: the worst status among the components (healthy
/// when there are none).
pub open spec fn worst_of(cs: Seq<HealthCheck>) -> HealthStatus {
    if exists|i: int| 0 <= i < cs.len() && #[trigger] cs[i].status == HealthStatus::Unhealthy {
        HealthStatus::Unhealthy
    } else if exists|i: int| 0 <= i < cs.len() && #[trigger] cs[i].status == HealthStatus::Degraded {
        HealthStatus::Degraded
    } else {
        HealthStatus::Healthy
    }
}

/// The overall health of a set of checks.
pub fn overall_health(checks: &Vec<HealthCheck>) -> (s: HealthStatus)
    ensures
        s == worst_of(checks@),
{
    let mut degraded = false;
    let mut i: usize = 0;
    while i < checks.len()
        invariant
            i <= checks@.len(),
            forall|j: int| 0 <= j < i ==> #[trigger] checks@[j].status != HealthStatus::Unhealthy,
            degraded <==> exists|j: int| 0 <= j < i && #[trigger] checks@[j].status == HealthStatus::Degraded,
        decreases checks@.len() - i,
    {
        match checks[i].status {
            HealthStatus::Unhealthy => {
                return HealthStatus::Unhealthy;
            },
            HealthStatus::Degraded => {
                degraded = true;
            },
            HealthStatus::Healthy => {},
        }
        i = i + 1;
    }
    if degraded {
        HealthStatus::Degraded
    } else {
        HealthStatus::Healthy
    }
}

/// The most snapshots a history keeps.
pub const HISTORY_LIMIT: usize = 1000;

/// The last snapshots taken, oldest first, at most `HISTORY_LIMIT`.
#[derive(Debug)]
pub struct SnapshotHistory<T> {
    items: Vec<T>,
}

impl<T> SnapshotHistory<T> {
    #[verifier::type_invariant]
    spec fn inv(self) -> bool {
        self.items@.len() <= HISTORY_LIMIT
    }

    /// The kept snapshots, oldest first.
    pub closed spec fn view(self) -> Seq<T> {
        self.items@
    }

    /// No snapshot yet.
    pub fn new() -> (h: SnapshotHistory<T>)
        ensures
            h.view() == Seq::<T>::empty(),
    {
        SnapshotHistory { items: Vec::new() }
    }

    /// Keeps a new snapshot, dropping the oldest when over the limit.
    pub fn store_snapshot(&mut self, snapshot: T)
        ensures
            final(self).view() == (if old(self).view().len() + 1 > HISTORY_LIMIT {
                old(self).view().push(snapshot).drop_first()
            } else {
                old(self).view().push(snapshot)
            }),
            final(self).view().len() <= HISTORY_LIMIT,
    {
        proof {
            use_type_invariant(&*self);
        }
        let mut items: Vec<T> = Vec::new();
        std::mem::swap(&mut items, &mut self.items);
        items.push(snapshot);
        if items.len() > HISTORY_LIMIT {
            items.remove(0);
        }
        self.items = items;
    }

    /// The number of kept snapshots.
    pub fn len(&self) -> (n: usize)
        ensures
            n == self.view().len(),
    {
        self.items.len()
    }

    /// The kept snapshot at position `i` (oldest first).
    pub fn get(&self, i: usize) -> (r: &T)
        requires
            i < self.view().len(),
        ensures
            *r == self.view()[i as int],
    {
        &self.items[i]
    }
}

/// What a request to the metrics endpoint asks for.
#[derive(Debug, Clone, Copy, PartialEq, Eq, Structural)]
pub enum MetricsRoute {
    /// `GET /metrics`: the metrics in the Prometheus text format.
    Metrics,
    /// `GET /health`: the overall health, as JSON.
    Health,
    /// `GET /status`: the status, as JSON.
    Status,
    /// Anything else.
    NotFound,
}

/// The route a request's text names: the first of `GET /metrics`,
/// `GET /health` and `GET /status` that occurs in it.
pub open spec fn route_of(request: Seq<char>) -> MetricsRoute {
    if seq_contains(request, "GET /metrics"@) {
        MetricsRoute::Metrics
    } else if seq_contains(request, "GET /health"@) {
        MetricsRoute::Health
    } else if seq_contains(request, "GET /status"@) {
        MetricsRoute::Status
    } else {
        MetricsRoute::NotFound
    }
}

/// The route of a request.
pub fn route_request(request: &str) -> (r: MetricsRoute)
    ensures
        r == route_of(request@),
{
    let t = chars_of(request);
    let metrics = chars_of("GET /metrics");
    let health = chars_of("GET /health");
    let status = chars_of("GET /status");
    if contains(t.as_slice(), metrics.as_slice()) {
        MetricsRoute::Metrics
    } else if contains(t.as_slice(), health.as_slice()) {
        MetricsRoute::Health
    } else if contains(t.as_slice(), status.as_slice()) {
        MetricsRoute::Status
    } else {
        MetricsRoute::NotFound
    }
}

/// The HTTP status line of the health route: unavailable when unhealthy.
pub fn health_status_line(h: HealthStatus) -> (s: String)
    ensures
        s@ == (if h == HealthStatus::Unhealthy { "503 Service Unavailable"@ } else { "200 OK"@ }),
{
    match h {
        HealthStatus::Unhealthy => str_to_string("503 Service Unavailable"),
        _ => str_to_string("200 OK"),
    }
}

/// An HTTP/1.1 response with a status, a content type and a body, the
/// length header counting the body's bytes.
pub open spec fn http_response_text(status: Seq<char>, content_type: Seq<char>, body_len: nat, body: Seq<char>) -> Seq<char> {
    "HTTP/1.1 "@ + status + "\r\nContent-Type: "@ + content_type + "\r\nContent-Length: "@ + decimal(body_len)
        + "\r\n\r\n"@ + body
}

/// Writes an HTTP/1.1 response.
pub fn http_response(status: &str, content_type: &str, body: &str) -> (r: String)
    ensures
        r@ == http_response_text(status@, content_type@, body.spec_bytes().len() as usize as nat, body@),
{
    let mut r = str_to_string("HTTP/1.1 ");
    string_push_str(&mut r, status);
    string_push_str(&mut r, "\r\nContent-Type: ");
    string_push_str(&mut r, content_type);
    string_push_str(&mut r, "\r\nContent-Length: ");
    push_decimal(&mut r, body.len() as u64);
    string_push_str(&mut r, "\r\n\r\n");
    string_push_str(&mut r, body);
    proof {
        assert(r@ =~= http_response_text(status@, content_type@, body.spec_bytes().len() as usize as nat, body@));
    }
    r
}

} // verus!
