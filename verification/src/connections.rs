//! The connection table: admission under a global and a per-address limit,
//! per-connection rate limiting, removal, and the periodic dropping of old
//! connections.

use vstd::prelude::*;
use crate::assoc::StrMap;
use crate::clock::now_millis;
use crate::connection::{refilled, BucketState, ConnectionError, ConnectionLimits, ConnectionStats, TokenBucket};
use crate::text::{decimal, push_decimal, str_to_string, string_push, string_push_str};

verus! {

/// One open connection.
#[derive(Debug)]
pub struct ConnectionState {
    /// The peer as `address:port`.
    pub addr: String,
    /// The peer's address.
    pub ip: String,
    /// When it was accepted, in milliseconds.
    pub connected_at_ms: u64,
    /// Activity as recorded: the time elapsed on a clock reading taken at
    /// the moment of recording, which is zero.
    pub last_activity_ms: u64,
    pub message_count: u32,
    pub bytes_sent: u64,
    pub bytes_received: u64,
    pub rate_limiter: TokenBucket,
}

/// A connection accepted at `now` counts as idle at `later` once it has
/// been open longer than `timeout` (the recorded activity being zero).
pub open spec fn idle_at(connected_at: u64, timeout: u64, later: u64) -> bool {
    later >= connected_at && later - connected_at > timeout
}

impl ConnectionState {
    /// A connection from `addr` accepted at `now`, allowed `rate_limit`
    /// messages per second.
    pub fn new_at(addr: String, ip: String, rate_limit: u32, now: u64) -> (c: ConnectionState)
        ensures
            c.addr == addr,
            c.ip == ip,
            c.connected_at_ms == now,
            c.last_activity_ms == 0,
            c.message_count == 0,
            c.bytes_sent == 0,
            c.bytes_received == 0,
            c.rate_limiter.state() == (BucketState { tokens: rate_limit, last_refill: now }),
            c.rate_limiter.cap() == rate_limit,
            c.rate_limiter.rate() == rate_limit,
    {
        ConnectionState {
            addr,
            ip,
            connected_at_ms: now,
            last_activity_ms: 0,
            message_count: 0,
            bytes_sent: 0,
            bytes_received: 0,
            rate_limiter: TokenBucket::new_at(rate_limit, rate_limit, now),
        }
    }

    /// A connection from `addr` accepted now, allowed `rate_limit` messages
    /// per second.
    pub fn new(addr: String, ip: String, rate_limit: u32) -> (c: ConnectionState)
        ensures
            c.addr == addr,
            c.ip == ip,
            c.last_activity_ms == 0,
            c.message_count == 0,
            c.bytes_sent == 0,
            c.bytes_received == 0,
            c.rate_limiter.state().tokens == rate_limit,
            c.rate_limiter.state().last_refill == c.connected_at_ms,
            c.rate_limiter.cap() == rate_limit,
            c.rate_limiter.rate() == rate_limit,
    {
        ConnectionState::new_at(addr, ip, rate_limit, now_millis())
    }

    /// Records activity (the recorded value is zero, see the field).
    pub fn update_activity(&mut self)
        ensures
            final(self).last_activity_ms == 0,
            final(self).connected_at_ms == old(self).connected_at_ms,
    {
        self.last_activity_ms = 0;
    }

    /// Whether the connection is idle at `now` under `timeout_ms`.
    pub fn is_idle_at(&self, timeout_ms: u64, now: u64) -> (r: bool)
        ensures
            r == idle_at(self.connected_at_ms, timeout_ms, now),
    {
        now >= self.connected_at_ms && now - self.connected_at_ms > timeout_ms
    }

    /// Whether the connection is idle now under `timeout_ms`.
    pub fn is_idle(&self, timeout_ms: u64) -> (r: bool)
        ensures
            exists|now: u64| r == #[trigger] idle_at(self.connected_at_ms, timeout_ms, now),
    {
        let now = now_millis();
        let r = self.is_idle_at(timeout_ms, now);
        proof {
            assert(r == idle_at(self.connected_at_ms, timeout_ms, now));
        }
        r
    }
}

/// The id of the connection from `ip` and `port`: `ip:port`.
pub open spec fn conn_id(ip: Seq<char>, port: u16) -> Seq<char> {
    ip + seq![':'] + decimal(port as nat)
}

/// The id of the connection from `ip` and `port`.
pub fn connection_id(ip: &str, port: u16) -> (s: String)
    ensures
        s@ == conn_id(ip@, port),
{
    let mut s = str_to_string(ip);
    string_push(&mut s, ':');
    push_decimal(&mut s, port as u64);
    s
}

/// The count kept for an address (0 when none is kept).
pub open spec fn count_of(m: Map<Seq<char>, u32>, ip: Seq<char>) -> u32 {
    if m.contains_key(ip) { m[ip] } else { 0 }
}

/// `b` is table `a` after admitting (or refusing) a connection from
/// `ip`:`port` at `now` with answer `r`: refused when no connection may be
/// admitted, or when the address already has its share (the address is
/// then counted with its count unchanged); otherwise the address's count
/// and the open count go up by one, a permit is used, and the connection is
/// entered under its id.
pub open spec fn accept_step(
    a: ConnectionManager,
    b: ConnectionManager,
    ip: Seq<char>,
    port: u16,
    now: u64,
    r: Result<String, ConnectionError>,
) -> bool {
    let c = count_of(a.ip_counts(), ip);
    let id = conn_id(ip, port);
    &&& b.settings() == a.settings()
    &&& if a.permits() == 0 {
        &&& r == Err::<String, ConnectionError>(ConnectionError::TooManyConnections)
        &&& b.conns() == a.conns()
        &&& b.ip_counts() == a.ip_counts()
        &&& b.permits() == a.permits()
        &&& b.open_count() == a.open_count()
    } else if c >= a.settings().max_connections_per_ip as u32 {
        &&& r == Err::<String, ConnectionError>(ConnectionError::TooManyConnectionsFromIP)
        &&& b.conns() == a.conns()
        &&& b.ip_counts() == a.ip_counts().insert(ip, c)
        &&& b.permits() == a.permits()
        &&& b.open_count() == a.open_count()
    } else {
        &&& r matches Ok(s) && s@ == id
        &&& b.conns().dom() == a.conns().dom().insert(id)
        &&& forall|k: Seq<char>| k != id && #[trigger] a.conns().contains_key(k) ==> b.conns()[k] == a.conns()[k]
        &&& b.conns()[id].connected_at_ms == now
        &&& b.conns()[id].ip@ == ip
        &&& b.ip_counts() == a.ip_counts().insert(ip, vstd::wrapping::u32_specs::wrapping_add(c, 1))
        &&& b.permits() == a.permits() - 1
        &&& b.open_count() == vstd::wrapping::u32_specs::wrapping_add(a.open_count(), 1)
    }
}

/// `b` is table `a` after asking at `now` whether the connection from
/// `ip`:`port` may send a message, with answer `ok`: its bucket gives a
/// token; false for an unknown connection. Nothing else changes.
pub open spec fn rate_checked(a: ConnectionManager, b: ConnectionManager, ip: Seq<char>, port: u16, now: u64, ok: bool) -> bool {
    let id = conn_id(ip, port);
    &&& b.settings() == a.settings()
    &&& b.conns().dom() == a.conns().dom()
    &&& b.ip_counts() == a.ip_counts()
    &&& b.permits() == a.permits()
    &&& b.open_count() == a.open_count()
    &&& !a.conns().contains_key(id) ==> !ok && b.conns() == a.conns()
    &&& a.conns().contains_key(id) ==> {
        let bucket = a.conns()[id].rate_limiter;
        let r = refilled(bucket.state(), bucket.cap(), bucket.rate(), now);
        &&& ok == (r.tokens >= 1)
        &&& b.conns()[id].rate_limiter.state() == (if ok {
            BucketState { tokens: (r.tokens - 1) as u32, ..r }
        } else {
            r
        })
    }
}

/// `b` is table `a` after one idle-connection cleanup pass at `now`:
/// connections open longer than the idle timeout leave the table; the
/// address counts, the open count and the permits are left as they are.
pub open spec fn idle_cleaned(a: ConnectionManager, b: ConnectionManager, now: u64) -> bool {
    &&& b.settings() == a.settings()
    &&& forall|k: Seq<char>| #[trigger] b.conns().contains_key(k) <==> (a.conns().contains_key(k)
        && !idle_at(a.conns()[k].connected_at_ms, a.settings().idle_timeout_ms, now))
    &&& forall|k: Seq<char>| #[trigger] b.conns().contains_key(k) ==> b.conns()[k] == a.conns()[k]
    &&& b.ip_counts() == a.ip_counts()
    &&& b.permits() == a.permits()
    &&& b.open_count() == a.open_count()
}

/// The connection table.
#[derive(Debug)]
pub struct ConnectionManager {
    limits: ConnectionLimits,
    connections: StrMap<ConnectionState>,
    ip_connection_counts: StrMap<u32>,
    available_permits: usize,
    total_connections: u32,
}

impl ConnectionManager {
    /// The open connections by id.
    pub closed spec fn conns(&self) -> Map<Seq<char>, ConnectionState> {
        self.connections.view()
    }

    /// The connections counted per address.
    pub closed spec fn ip_counts(&self) -> Map<Seq<char>, u32> {
        self.ip_connection_counts.view()
    }

    /// Connections that may still be admitted.
    pub closed spec fn permits(&self) -> usize {
        self.available_permits
    }

    /// Connections counted open (modulo 2^32).
    pub closed spec fn open_count(&self) -> u32 {
        self.total_connections
    }

    /// The limits.
    pub closed spec fn settings(&self) -> ConnectionLimits {
        self.limits
    }

    /// An empty table admitting up to `limits.max_connections`.
    pub fn new(limits: ConnectionLimits) -> (m: ConnectionManager)
        ensures
            m.conns() == Map::<Seq<char>, ConnectionState>::empty(),
            m.ip_counts() == Map::<Seq<char>, u32>::empty(),
            m.permits() == limits.max_connections,
            m.open_count() == 0,
            m.settings() == limits,
    {
        ConnectionManager {
            available_permits: limits.max_connections,
            limits,
            connections: StrMap::new(),
            ip_connection_counts: StrMap::new(),
            total_connections: 0,
        }
    }

    /// Admits a connection from `ip`:`port` at `now`: refused when no
    /// connection may be admitted, or when the address already has its
    /// share (the address is then counted with its count unchanged);
    /// otherwise the address's count and the open count go up by one, a
    /// permit is used, and the connection is entered under its id.
    pub fn try_accept_connection_at(&mut self, ip: &str, port: u16, now: u64) -> (r: Result<String, ConnectionError>)
        ensures
            accept_step(*old(self), *final(self), ip@, port, now, r),
    {
        if self.available_permits == 0 {
            return Err(ConnectionError::TooManyConnections);
        }
        let c: u32 = match self.ip_connection_counts.get(ip) {
            Some(v) => *v,
            None => 0,
        };
        if c >= self.limits.max_connections_per_ip as u32 {
            self.ip_connection_counts.insert(str_to_string(ip), c);
            return Err(ConnectionError::TooManyConnectionsFromIP);
        }
        self.ip_connection_counts.insert(str_to_string(ip), c.wrapping_add(1));
        let id = connection_id(ip, port);
        let state = ConnectionState::new_at(id.clone(), str_to_string(ip), self.limits.rate_limit_per_connection, now);
        self.connections.insert(id.clone(), state);
        self.total_connections = self.total_connections.wrapping_add(1);
        self.available_permits = self.available_permits - 1;
        Ok(id)
    }

    /// Admits a connection from `ip`:`port` now (see `try_accept_connection_at`).
    pub fn try_accept_connection(&mut self, ip: &str, port: u16) -> (r: Result<String, ConnectionError>)
        ensures
            exists|now: u64| #[trigger] accept_step(*old(self), *final(self), ip@, port, now, r),
    {
        let now = now_millis();
        let r = self.try_accept_connection_at(ip, port, now);
        proof {
            assert(accept_step(*old(self), *self, ip@, port, now, r));
        }
        r
    }

    /// Removes the connection from `ip`:`port`, if it is open: the
    /// address's count goes down (and the address is forgotten at zero),
    /// the open count goes down and the permit is given back.
    pub fn remove_connection(&mut self, ip: &str, port: u16)
        ensures
            final(self).settings() == old(self).settings(),
            final(self).conns() == old(self).conns().remove(conn_id(ip@, port)),
            if old(self).conns().contains_key(conn_id(ip@, port)) {
                &&& final(self).ip_counts() == (if old(self).ip_counts().contains_key(ip@) {
                    if vstd::wrapping::u32_specs::wrapping_sub(old(self).ip_counts()[ip@], 1) == 0 {
                        old(self).ip_counts().remove(ip@)
                    } else {
                        old(self).ip_counts().insert(ip@, vstd::wrapping::u32_specs::wrapping_sub(old(self).ip_counts()[ip@], 1))
                    }
                } else {
                    old(self).ip_counts()
                })
                &&& final(self).open_count() == vstd::wrapping::u32_specs::wrapping_sub(old(self).open_count(), 1)
                &&& final(self).permits() == (if old(self).permits() < usize::MAX { old(self).permits() + 1 } else { old(self).permits() as int })
            } else {
                &&& final(self).ip_counts() == old(self).ip_counts()
                &&& final(self).open_count() == old(self).open_count()
                &&& final(self).permits() == old(self).permits()
            },
    {
        let id = connection_id(ip, port);
        match self.connections.remove(id.as_str()) {
            None => {},
            Some(_) => {
                match self.ip_connection_counts.get(ip) {
                    Some(v) => {
                        let n = v.wrapping_sub(1);
                        if n == 0 {
                            self.ip_connection_counts.remove(ip);
                        } else {
                            self.ip_connection_counts.insert(str_to_string(ip), n);
                        }
                    },
                    None => {},
                }
                self.total_connections = self.total_connections.wrapping_sub(1);
                if self.available_permits < usize::MAX {
                    self.available_permits = self.available_permits + 1;
                }
            },
        }
    }

    /// Whether the connection from `ip`:`port` may send a message at
    /// `now`: its bucket gives a token; false for an unknown connection.
    pub fn check_rate_limit_at(&mut self, ip: &str, port: u16, now: u64) -> (ok: bool)
        ensures
            rate_checked(*old(self), *final(self), ip@, port, now, ok),
    {
        let id = connection_id(ip, port);
        match self.connections.remove(id.as_str()) {
            None => {
                proof {
                    assert(self.conns() =~= old(self).conns());
                }
                false
            },
            Some(mut state) => {
                let ok = state.rate_limiter.try_consume_at(1, now);
                self.connections.insert(id, state);
                proof {
                    assert(self.conns().dom() =~= old(self).conns().dom());
                }
                ok
            },
        }
    }

    /// Whether the connection from `ip`:`port` may send a message now (see
    /// `check_rate_limit_at`).
    pub fn check_rate_limit(&mut self, ip: &str, port: u16) -> (ok: bool)
        ensures
            exists|now: u64| #[trigger] rate_checked(*old(self), *final(self), ip@, port, now, ok),
    {
        let now = now_millis();
        let ok = self.check_rate_limit_at(ip, port, now);
        proof {
            assert(rate_checked(*old(self), *self, ip@, port, now, ok));
        }
        ok
    }

    /// The table's counters.
    pub fn get_connection_stats(&self) -> (s: ConnectionStats)
        ensures
            s.total_connections == self.open_count(),
            s.connections_by_ip == self.ip_counts().dom().len() as u32,
            s.available_permits == self.permits() as u32,
    {
        self.ip_connection_counts.note_entries();
        proof {
            crate::assoc::lemma_entries_map_len(self.ip_connection_counts.entries());
        }
        ConnectionStats {
            total_connections: self.total_connections,
            connections_by_ip: self.ip_connection_counts.len() as u32,
            available_permits: self.available_permits as u32,
        }
    }

    /// One pass of the idle-connection cleanup at `now`: connections open
    /// longer than the idle timeout leave the table. The address counts,
    /// the open count and the permits are left as they are.
    pub fn cleanup_idle_at(&mut self, now: u64)
        ensures
            idle_cleaned(*old(self), *final(self), now),
    {
        let keys = self.connections.keys();
        self.connections.note_entries();
        let ghost orig = self.conns();
        let ghost es = self.connections.entries();
        let timeout = self.limits.idle_timeout_ms;
        let mut i: usize = 0;
        while i < keys.len()
            invariant
                timeout == self.settings().idle_timeout_ms,
                self.settings() == old(self).settings(),
                i <= keys@.len(),
                keys@.len() == es.len(),
                forall|j: int| 0 <= j < keys@.len() ==> #[trigger] keys@[j]@ == es[j].0@,
                crate::assoc::keys_unique(es),
                orig == crate::assoc::entries_map(es),
                orig == old(self).conns(),
                forall|k: Seq<char>| #[trigger] self.conns().contains_key(k) <==> (orig.contains_key(k)
                    && !((exists|j: int| 0 <= j < i && #[trigger] keys@[j]@ == k)
                        && idle_at(orig[k].connected_at_ms, timeout, now))),
                forall|k: Seq<char>| #[trigger] self.conns().contains_key(k) ==> self.conns()[k] == orig[k],
                self.ip_counts() == old(self).ip_counts(),
                self.permits() == old(self).permits(),
                self.open_count() == old(self).open_count(),
            decreases keys@.len() - i,
        {
            let k = &keys[i];
            let ghost kv = k@;
            proof {
                assert(keys@[i as int]@ == kv);
                assert(es[i as int].0@ == kv);
                crate::assoc::lemma_key_index_unique(es, i as int);
            }
            let idle = match self.connections.get(k.as_str()) {
                Some(st) => st.is_idle_at(timeout, now),
                None => false,
            };
            let ghost before = self.conns();
            if idle {
                self.connections.remove(k.as_str());
            }
            proof {
                assert forall|x: Seq<char>| #[trigger] self.conns().contains_key(x) <==> (orig.contains_key(x)
                    && !((exists|j: int| 0 <= j < i + 1 && #[trigger] keys@[j]@ == x)
                        && idle_at(orig[x].connected_at_ms, timeout, now))) by {
                    if x == kv {
                        assert(keys@[i as int]@ == x);
                        if exists|j: int| 0 <= j < i && #[trigger] keys@[j]@ == x {
                            let j = choose|j: int| 0 <= j < i && #[trigger] keys@[j]@ == x;
                            assert(es[j].0@ != es[i as int].0@);
                        }
                    } else {
                        if exists|j: int| 0 <= j < i + 1 && #[trigger] keys@[j]@ == x {
                            let j = choose|j: int| 0 <= j < i + 1 && #[trigger] keys@[j]@ == x;
                            assert(j != i);
                        }
                    }
                }
            }
            i = i + 1;
        }
        proof {
            assert forall|k: Seq<char>| #[trigger] self.conns().contains_key(k) <==> (orig.contains_key(k)
                && !idle_at(orig[k].connected_at_ms, timeout, now)) by {
                if orig.contains_key(k) {
                    assert(crate::assoc::has_key(es, k));
                    let j = choose|j: int| 0 <= j < es.len() && es[j].0@ == k;
                    assert(keys@[j]@ == k);
                }
            }
        }
    }

    /// One pass of the idle-connection cleanup now (see `cleanup_idle_at`).
    pub fn cleanup_idle_connections(&mut self)
        ensures
            exists|now: u64| #[trigger] idle_cleaned(*old(self), *final(self), now),
    {
        let now = now_millis();
        self.cleanup_idle_at(now);
        proof {
            assert(idle_cleaned(*old(self), *self, now));
        }
    }
}

} // verus!
