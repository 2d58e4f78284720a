//! Health monitoring: component checks, their summary and the overall
//! status of the broker.

use vstd::prelude::*;
use crate::assoc::StrMap;
use crate::clock::now_millis;
use crate::text::{chars_of, decimal, push_decimal, str_to_string, string_of_chars, string_push_str, u64_to_decimal};
use crate::shell::{split_words, words};
use crate::wal::{parse_u64, parsed_u64};

verus! {

/// How healthy a component, or the whole broker, is.
#[derive(Debug, Clone, Copy, PartialEq, Eq, Structural)]
pub enum HealthStatus {
    /// Everything works.
    Healthy,
    /// Non-critical issues.
    Warning,
    /// Critical issues.
    Critical,
    /// Out of service.
    Unavailable,
}

impl HealthStatus {
    /// Only `Healthy` is healthy.
    pub fn is_healthy(&self) -> (r: bool)
        ensures
            r == (*self == HealthStatus::Healthy),
    {
        match self {
            HealthStatus::Healthy => true,
            _ => false,
        }
    }

    /// Everything but `Unavailable` is available.
    pub fn is_available(&self) -> (r: bool)
        ensures
            r == (*self != HealthStatus::Unavailable),
    {
        match self {
            HealthStatus::Unavailable => false,
            _ => true,
        }
    }
}

/// The result of checking one component.
#[derive(Debug)]
pub struct ComponentHealth {
    pub component: String,
    pub status: HealthStatus,
    pub message: Option<String>,
    /// When it was checked, milliseconds since the epoch.
    pub last_checked: u64,
    pub response_time_ms: u64,
    pub metadata: StrMap<String>,
}

impl ComponentHealth {
    /// A healthy result for `component`, checked at `now`, without metadata.
    pub fn healthy_at(component: &str, now: u64) -> (h: ComponentHealth)
        ensures
            h.component@ == component@,
            h.status == HealthStatus::Healthy,
            h.message is None,
            h.last_checked == now,
            h.response_time_ms == 0,
            h.metadata.view() == Map::<Seq<char>, String>::empty(),
    {
        ComponentHealth {
            component: str_to_string(component),
            status: HealthStatus::Healthy,
            message: None,
            last_checked: now,
            response_time_ms: 0,
            metadata: StrMap::new(),
        }
    }

    /// A healthy result for `component`, checked now.
    pub fn healthy(component: &str) -> (h: ComponentHealth)
        ensures
            h.component@ == component@,
            h.status == HealthStatus::Healthy,
            h.message is None,
            h.response_time_ms == 0,
            h.metadata.view() == Map::<Seq<char>, String>::empty(),
    {
        ComponentHealth::healthy_at(component, now_millis())
    }

    /// A critical result for `component` with `message`, checked at `now`.
    pub fn unhealthy_at(component: &str, message: &str, now: u64) -> (h: ComponentHealth)
        ensures
            h.component@ == component@,
            h.status == HealthStatus::Critical,
            h.message matches Some(m) && m@ == message@,
            h.last_checked == now,
            h.response_time_ms == 0,
            h.metadata.view() == Map::<Seq<char>, String>::empty(),
    {
        ComponentHealth {
            component: str_to_string(component),
            status: HealthStatus::Critical,
            message: Some(str_to_string(message)),
            last_checked: now,
            response_time_ms: 0,
            metadata: StrMap::new(),
        }
    }

    /// A critical result for `component` with `message`, checked now.
    pub fn unhealthy(component: &str, message: &str) -> (h: ComponentHealth)
        ensures
            h.component@ == component@,
            h.status == HealthStatus::Critical,
            h.message matches Some(m) && m@ == message@,
            h.response_time_ms == 0,
            h.metadata.view() == Map::<Seq<char>, String>::empty(),
    {
        ComponentHealth::unhealthy_at(component, message, now_millis())
    }

    /// The same result with metadata `key` set to `value`.
    pub fn with_metadata(self, key: &str, value: &str) -> (h: ComponentHealth)
        ensures
            h.component == self.component,
            h.status == self.status,
            h.message == self.message,
            h.last_checked == self.last_checked,
            h.response_time_ms == self.response_time_ms,
            h.metadata.view().dom() == self.metadata.view().dom().insert(key@),
            h.metadata.view()[key@]@ == value@,
            forall|k: Seq<char>| k != key@ && #[trigger] self.metadata.view().contains_key(k)
                ==> h.metadata.view()[k] == self.metadata.view()[k],
    {
        let mut h = self;
        h.metadata.insert(str_to_string(key), str_to_string(value));
        h
    }
}

/// How many components are in each state.
#[derive(Debug, Clone, Copy, PartialEq, Eq, Structural)]
pub struct HealthSummary {
    pub total_components: usize,
    pub healthy_components: usize,
    pub warning_components: usize,
    pub critical_components: usize,
    pub unavailable_components: usize,
}

/// A full health report.
#[derive(Debug)]
pub struct HealthReport {
    pub overall_status: HealthStatus,
    pub timestamp: u64,
    pub uptime_seconds: u64,
    pub components: Vec<ComponentHealth>,
    pub summary: HealthSummary,
}

/// The number of results with status `st`.
pub open spec fn count_status(cs: Seq<ComponentHealth>, st: HealthStatus) -> nat
    decreases cs.len(),
{
    if cs.len() == 0 {
        0
    } else {
        count_status(cs.drop_last(), st) + (if cs.last().status == st { 1nat } else { 0nat })
    }
}

/// The summary of a list of results.
pub open spec fn summary_of(cs: Seq<ComponentHealth>) -> HealthSummary {
    HealthSummary {
        total_components: cs.len() as usize,
        healthy_components: count_status(cs, HealthStatus::Healthy) as usize,
        warning_components: count_status(cs, HealthStatus::Warning) as usize,
        critical_components: count_status(cs, HealthStatus::Critical) as usize,
        unavailable_components: count_status(cs, HealthStatus::Unavailable) as usize,
    }
}

/// The overall status a summary stands for: critical when some component is
/// critical or unavailable, else warning when some is in warning, else healthy.
pub open spec fn overall_of(s: HealthSummary) -> HealthStatus {
    if s.critical_components > 0 || s.unavailable_components > 0 {
        HealthStatus::Critical
    } else if s.warning_components > 0 {
        HealthStatus::Warning
    } else {
        HealthStatus::Healthy
    }
}

proof fn lemma_count_le(cs: Seq<ComponentHealth>, st: HealthStatus)
    ensures
        count_status(cs, st) <= cs.len(),
    decreases cs.len(),
{
    if cs.len() > 0 {
        lemma_count_le(cs.drop_last(), st);
    }
}

/// Counts the results in each state.
pub fn summarize(cs: &Vec<ComponentHealth>) -> (s: HealthSummary)
    ensures
        s == summary_of(cs@),
{
    let mut healthy: usize = 0;
    let mut warning: usize = 0;
    let mut critical: usize = 0;
    let mut unavailable: usize = 0;
    let mut i: usize = 0;
    while i < cs.len()
        invariant
            i <= cs@.len(),
            healthy == count_status(cs@.subrange(0, i as int), HealthStatus::Healthy),
            warning == count_status(cs@.subrange(0, i as int), HealthStatus::Warning),
            critical == count_status(cs@.subrange(0, i as int), HealthStatus::Critical),
            unavailable == count_status(cs@.subrange(0, i as int), HealthStatus::Unavailable),
        decreases cs@.len() - i,
    {
        let ghost pre = cs@.subrange(0, i as int);
        let ghost next = cs@.subrange(0, i + 1);
        proof {
            assert(next.drop_last() =~= pre);
            lemma_count_le(pre, HealthStatus::Healthy);
            lemma_count_le(pre, HealthStatus::Warning);
            lemma_count_le(pre, HealthStatus::Critical);
            lemma_count_le(pre, HealthStatus::Unavailable);
        }
        match cs[i].status {
            HealthStatus::Healthy => healthy = healthy + 1,
            HealthStatus::Warning => warning = warning + 1,
            HealthStatus::Critical => critical = critical + 1,
            HealthStatus::Unavailable => unavailable = unavailable + 1,
        }
        i = i + 1;
    }
    proof {
        assert(cs@.subrange(0, cs@.len() as int) =~= cs@);
    }
    HealthSummary {
        total_components: cs.len(),
        healthy_components: healthy,
        warning_components: warning,
        critical_components: critical,
        unavailable_components: unavailable,
    }
}

/// The overall status a summary stands for.
pub fn overall_status(s: &HealthSummary) -> (st: HealthStatus)
    ensures
        st == overall_of(*s),
{
    if s.critical_components > 0 || s.unavailable_components > 0 {
        HealthStatus::Critical
    } else if s.warning_components > 0 {
        HealthStatus::Warning
    } else {
        HealthStatus::Healthy
    }
}

/// The report for results `components`, made at `now` with the given uptime;
/// a disabled monitor reports itself unavailable with no components.
pub fn build_report(enabled: bool, components: Vec<ComponentHealth>, now: u64, uptime_seconds: u64) -> (r: HealthReport)
    ensures
        r.timestamp == now,
        r.uptime_seconds == uptime_seconds,
        !enabled ==> r.overall_status == HealthStatus::Unavailable && r.components@.len() == 0
            && r.summary == summary_of(Seq::<ComponentHealth>::empty()),
        enabled ==> r.components@ == components@ && r.summary == summary_of(components@)
            && r.overall_status == overall_of(r.summary),
{
    if !enabled {
        let none: Vec<ComponentHealth> = Vec::new();
        let summary = summarize(&none);
        return HealthReport {
            overall_status: HealthStatus::Unavailable,
            timestamp: now,
            uptime_seconds,
            components: none,
            summary,
        };
    }
    let summary = summarize(&components);
    let overall = overall_status(&summary);
    HealthReport { overall_status: overall, timestamp: now, uptime_seconds, components, summary }
}

/// A component that can report its health.
pub trait HealthChecker {
    /// Checks the component now.
    fn check_health(&self) -> ComponentHealth;

    /// The component's name.
    fn component_name(&self) -> String;
}

/// The broker's health monitor: the registered checkers, when monitoring
/// started and whether it is on.
pub struct HealthMonitor<C: HealthChecker> {
    checkers: Vec<C>,
    start_millis: u64,
    enabled: bool,
}

impl<C: HealthChecker> HealthMonitor<C> {
    /// The number of registered checkers.
    pub closed spec fn checker_count(&self) -> nat {
        self.checkers@.len()
    }

    /// The registered checkers, in registration order.
    pub closed spec fn checkers(&self) -> Seq<C> {
        self.checkers@
    }

    /// When monitoring started, milliseconds since the epoch.
    pub closed spec fn started_at(&self) -> u64 {
        self.start_millis
    }

    /// Whether monitoring is on.
    pub closed spec fn on(&self) -> bool {
        self.enabled
    }

    /// A monitor started at `now`, on, with no checkers.
    pub fn new_at(now: u64) -> (m: HealthMonitor<C>)
        ensures
            m.checker_count() == 0,
            m.started_at() == now,
            m.on(),
    {
        HealthMonitor { checkers: Vec::new(), start_millis: now, enabled: true }
    }

    /// A monitor started now, on, with no checkers.
    pub fn new() -> (m: HealthMonitor<C>)
        ensures
            m.checker_count() == 0,
            m.on(),
    {
        HealthMonitor::new_at(now_millis())
    }

    /// Adds a checker.
    pub fn register_checker(&mut self, checker: C)
        ensures
            final(self).checkers() == old(self).checkers().push(checker),
            final(self).checker_count() == old(self).checker_count() + 1,
            final(self).started_at() == old(self).started_at(),
            final(self).on() == old(self).on(),
    {
        self.checkers.push(checker);
    }

    /// Turns monitoring on or off.
    pub fn set_enabled(&mut self, enabled: bool)
        ensures
            final(self).on() == enabled,
            final(self).checkers() == old(self).checkers(),
            final(self).checker_count() == old(self).checker_count(),
            final(self).started_at() == old(self).started_at(),
    {
        self.enabled = enabled;
    }

    /// Whether monitoring is on.
    pub fn is_enabled(&self) -> (r: bool)
        ensures
            r == self.on(),
    {
        self.enabled
    }

    /// Whole seconds since monitoring started, at `now` (0 if the clock is
    /// behind the start).
    pub fn uptime_seconds_at(&self, now: u64) -> (s: u64)
        ensures
            s == (if now >= self.started_at() { ((now - self.started_at()) / 1000) as u64 } else { 0 }),
    {
        if now >= self.start_millis {
            (now - self.start_millis) / 1000
        } else {
            0
        }
    }

    /// Whole seconds since monitoring started.
    pub fn uptime_seconds(&self) -> u64 {
        self.uptime_seconds_at(now_millis())
    }

    /// Checks every component, in registration order, and reports at `now`.
    pub fn check_health_at(&self, now: u64) -> (r: HealthReport)
        ensures
            r.timestamp == now,
            r.uptime_seconds == (if now >= self.started_at() { ((now - self.started_at()) / 1000) as u64 } else { 0 }),
            !self.on() ==> r.overall_status == HealthStatus::Unavailable && r.components@.len() == 0
                && r.summary == summary_of(Seq::<ComponentHealth>::empty()),
            self.on() ==> r.components@.len() == self.checker_count() && r.summary == summary_of(r.components@)
                && r.overall_status == overall_of(r.summary),
            self.on() ==> forall|i: int| 0 <= i < r.components@.len()
                ==> call_ensures(C::check_health, (&self.checkers()[i],), #[trigger] r.components@[i]),
    {
        let uptime = self.uptime_seconds_at(now);
        if !self.enabled {
            return build_report(false, Vec::new(), now, uptime);
        }
        let mut results: Vec<ComponentHealth> = Vec::new();
        let mut i: usize = 0;
        while i < self.checkers.len()
            invariant
                i <= self.checkers@.len(),
                results@.len() == i,
                forall|j: int| 0 <= j < i ==> call_ensures(C::check_health, (&self.checkers@[j],), #[trigger] results@[j]),
            decreases self.checkers@.len() - i,
        {
            results.push(self.checkers[i].check_health());
            i = i + 1;
        }
        build_report(true, results, now, uptime)
    }

    /// Checks every component and reports now.
    pub fn check_health(&self) -> (r: HealthReport)
        ensures
            !self.on() ==> r.overall_status == HealthStatus::Unavailable && r.components@.len() == 0
                && r.summary == summary_of(Seq::<ComponentHealth>::empty()),
            self.on() ==> r.components@.len() == self.checker_count() && r.summary == summary_of(r.components@)
                && r.overall_status == overall_of(r.summary),
            self.on() ==> forall|i: int| 0 <= i < r.components@.len()
                ==> call_ensures(C::check_health, (&self.checkers()[i],), #[trigger] r.components@[i]),
    {
        self.check_health_at(now_millis())
    }

    /// The monitor is on.
    pub fn liveness_check(&self) -> (r: bool)
        ensures
            r == self.on(),
    {
        self.enabled
    }

    /// The monitor is on and the broker is available; an overall status
    /// judged from the components is never unavailable, so this is whether
    /// the monitor is on.
    pub fn readiness_check(&self) -> (r: bool)
        ensures
            r == self.on(),
    {
        if !self.enabled {
            return false;
        }
        let report = self.check_health();
        report.overall_status.is_available()
    }
}

/// Judges memory use against a limit in megabytes.
#[derive(Debug, Clone, Copy)]
pub struct MemoryHealthChecker {
    pub max_memory_mb: u64,
}

/// The memory state a usage stands for: critical above the limit, warning
/// above four fifths of it, healthy otherwise.
pub open spec fn memory_status(usage_mb: u64, max_mb: u64) -> HealthStatus {
    if usage_mb > max_mb {
        HealthStatus::Critical
    } else if usage_mb > max_mb * 8 / 10 {
        HealthStatus::Warning
    } else {
        HealthStatus::Healthy
    }
}

/// The lines of a text, split at each `'\n'` (a text ending in a line
/// break has an empty last line). A `'\r'` before the break stays in the
/// line; it is white space, so words and prefixes read the same.
pub open spec fn split_lines(s: Seq<char>) -> Seq<Seq<char>>
    decreases s.len(),
{
    if s.len() == 0 {
        seq![Seq::<char>::empty()]
    } else {
        let ls = split_lines(s.drop_last());
        if s.last() == '\n' {
            ls.push(Seq::<char>::empty())
        } else {
            ls.update(ls.len() - 1, ls.last().push(s.last()))
        }
    }
}

proof fn lemma_split_lines_nonempty(s: Seq<char>)
    ensures
        split_lines(s).len() >= 1,
    decreases s.len(),
{
    if s.len() > 0 {
        lemma_split_lines_nonempty(s.drop_last());
    }
}

/// The resident size in kilobytes a status line gives: a line starting
/// with `VmRSS:` whose second word reads as a number.
pub open spec fn vmrss_line(l: Seq<char>) -> Option<u64> {
    if l.len() >= 6 && l.subrange(0, 6) == "VmRSS:"@ && words(l).len() >= 2 {
        parsed_u64(words(l)[1])
    } else {
        None
    }
}

/// The value of the first line that gives one.
pub open spec fn first_vmrss(ls: Seq<Seq<char>>) -> Option<u64>
    decreases ls.len(),
{
    if ls.len() == 0 {
        None
    } else if vmrss_line(ls[0]) is Some {
        vmrss_line(ls[0])
    } else {
        first_vmrss(ls.drop_first())
    }
}

proof fn lemma_first_vmrss_push(ls: Seq<Seq<char>>, l: Seq<char>)
    ensures
        first_vmrss(ls.push(l)) == (if first_vmrss(ls) is Some { first_vmrss(ls) } else { vmrss_line(l) }),
    decreases ls.len(),
{
    if ls.len() == 0 {
        assert(ls.push(l).drop_first() =~= Seq::<Seq<char>>::empty());
    } else {
        assert(ls.push(l).drop_first() =~= ls.drop_first().push(l));
        lemma_first_vmrss_push(ls.drop_first(), l);
    }
}

/// The value one line gives, if any.
fn vmrss_of_line(line: &Vec<char>) -> (r: Option<u64>)
    ensures
        r == vmrss_line(line@),
{
    proof {
        reveal_strlit("VmRSS:");
    }
    if line.len() < 6 {
        return None;
    }
    let prefix = ['V', 'm', 'R', 'S', 'S', ':'];
    let mut i: usize = 0;
    while i < 6
        invariant
            line@.len() >= 6,
            i <= 6,
            prefix@ == "VmRSS:"@,
            forall|j: int| 0 <= j < i ==> line@[j] == prefix@[j],
        decreases 6 - i,
    {
        if line[i] != prefix[i] {
            proof {
                assert(line@.subrange(0, 6)[i as int] != "VmRSS:"@[i as int]);
            }
            return None;
        }
        i = i + 1;
    }
    proof {
        assert(line@.subrange(0, 6) =~= "VmRSS:"@);
    }
    let text = string_of_chars(line.as_slice());
    let ws = split_words(text.as_str());
    proof {
        assert(ws@.map_values(|w: String| w@).len() == ws@.len());
    }
    if ws.len() < 2 {
        return None;
    }
    proof {
        assert(ws@.map_values(|w: String| w@)[1] == ws@[1]@);
    }
    parse_u64(ws[1].as_str())
}

/// The resident size in kilobytes that a process status text (as
/// `/proc/self/status` holds it) gives: the first line that starts with
/// `VmRSS:` and whose second word reads as a number.
pub fn vmrss_kb(status: &str) -> (r: Option<u64>)
    ensures
        r == first_vmrss(split_lines(status@)),
{
    let cs = chars_of(status);
    let mut cur: Vec<char> = Vec::new();
    let mut found: Option<u64> = None;
    let ghost mut done: Seq<Seq<char>> = Seq::empty();
    let mut i: usize = 0;
    proof {
        assert(cs@.subrange(0, 0) =~= Seq::<char>::empty());
        assert(split_lines(Seq::<char>::empty()) == done.push(cur@));
    }
    while i < cs.len()
        invariant
            cs@ == status@,
            i <= cs@.len(),
            split_lines(cs@.subrange(0, i as int)) == done.push(cur@),
            found == first_vmrss(done),
        decreases cs@.len() - i,
    {
        let c = cs[i];
        let ghost pre = cs@.subrange(0, i as int);
        proof {
            assert(cs@.subrange(0, i + 1).drop_last() =~= pre);
            assert(cs@.subrange(0, i + 1).last() == c);
        }
        if c == '\n' {
            if found.is_none() {
                found = vmrss_of_line(&cur);
            }
            proof {
                lemma_first_vmrss_push(done, cur@);
                done = done.push(cur@);
            }
            cur = Vec::new();
            proof {
                assert(split_lines(cs@.subrange(0, i + 1)) == split_lines(pre).push(Seq::<char>::empty()));
                assert(done.push(cur@) =~= split_lines(pre).push(Seq::<char>::empty()));
            }
        } else {
            let ghost before = cur@;
            cur.push(c);
            proof {
                let ls = split_lines(pre);
                assert(ls =~= done.push(before));
                assert(ls.update(ls.len() - 1, ls.last().push(c)) =~= done.push(cur@));
            }
        }
        i = i + 1;
    }
    proof {
        assert(cs@.subrange(0, cs@.len() as int) =~= cs@);
        lemma_first_vmrss_push(done, cur@);
    }
    if found.is_some() {
        found
    } else {
        vmrss_of_line(&cur)
    }
}

impl MemoryHealthChecker {
    /// The memory in use, in megabytes, from the process status text when
    /// it could be read (its resident size, in whole megabytes), else the
    /// estimate of 100.
    pub fn get_memory_usage_mb(&self, status: Option<&str>) -> (r: Option<u64>)
        ensures
            r == Some(match status {
                Some(t) => match first_vmrss(split_lines(t@)) {
                    Some(kb) => kb / 1024,
                    None => 100u64,
                },
                None => 100u64,
            }),
    {
        match status {
            Some(t) => match vmrss_kb(t) {
                Some(kb) => Some(kb / 1024),
                None => Some(100),
            },
            None => Some(100),
        }
    }

    /// A checker with limit `max_memory_mb`.
    pub fn new(max_memory_mb: u64) -> (c: MemoryHealthChecker)
        ensures
            c.max_memory_mb == max_memory_mb,
    {
        MemoryHealthChecker { max_memory_mb }
    }

    /// The memory result for a measured usage (`None`: not measurable), at
    /// `now`, measured in `response_time_ms`: its status, message, and the
    /// usage and limit as metadata.
    pub fn check_usage(&self, usage_mb: Option<u64>, response_time_ms: u64, now: u64) -> (h: ComponentHealth)
        requires
            self.max_memory_mb <= u64::MAX / 8,
        ensures
            h.component@ == "memory"@,
            usage_mb is None ==> h.status == HealthStatus::Critical
                && (h.message matches Some(m) && m@ == "Unable to determine memory usage"@),
            match usage_mb {
                None => true,
                Some(u) => {
                &&& h.status == memory_status(u, self.max_memory_mb)
                &&& h.metadata.view().dom() == set!["current_usage_mb"@, "max_usage_mb"@]
                &&& h.metadata.view()["current_usage_mb"@]@ == decimal(u as nat)
                &&& h.metadata.view()["max_usage_mb"@]@ == decimal(self.max_memory_mb as nat)
                &&& h.status == HealthStatus::Critical ==> (h.message matches Some(m) && m@ == "Memory usage "@
                    + decimal(u as nat) + "MB exceeds limit "@ + decimal(self.max_memory_mb as nat) + "MB"@)
                &&& h.status == HealthStatus::Warning ==> (h.message matches Some(m) && m@ == "Memory usage "@
                    + decimal(u as nat) + "MB approaching limit "@ + decimal(self.max_memory_mb as nat) + "MB"@)
                &&& h.status == HealthStatus::Healthy ==> h.message is None
                },
            },
    {
        match usage_mb {
            None => ComponentHealth::unhealthy_at("memory", "Unable to determine memory usage", now),
            Some(u) => {
                let cur = u64_to_decimal(u);
                let max = u64_to_decimal(self.max_memory_mb);
                let h = if u > self.max_memory_mb || u > self.max_memory_mb * 8 / 10 {
                    let mut m = str_to_string("Memory usage ");
                    push_decimal(&mut m, u);
                    if u > self.max_memory_mb {
                        string_push_str(&mut m, "MB exceeds limit ");
                    } else {
                        string_push_str(&mut m, "MB approaching limit ");
                    }
                    push_decimal(&mut m, self.max_memory_mb);
                    string_push_str(&mut m, "MB");
                    ComponentHealth {
                        component: str_to_string("memory"),
                        status: if u > self.max_memory_mb { HealthStatus::Critical } else { HealthStatus::Warning },
                        message: Some(m),
                        last_checked: now,
                        response_time_ms,
                        metadata: StrMap::new(),
                    }
                } else {
                    ComponentHealth::healthy_at("memory", now)
                };
                let h1 = h.with_metadata("current_usage_mb", cur.as_str());
                proof {
                    reveal_strlit("current_usage_mb");
                    reveal_strlit("max_usage_mb");
                    assert("current_usage_mb"@ != "max_usage_mb"@) by {
                        assert("current_usage_mb"@[0] != "max_usage_mb"@[0]);
                    }
                    assert(h1.metadata.view().contains_key("current_usage_mb"@));
                }
                let h2 = h1.with_metadata("max_usage_mb", max.as_str());
                proof {
                    assert(h2.metadata.view().dom() =~= set!["current_usage_mb"@, "max_usage_mb"@]);
                }
                h2
            },
        }
    }
}

/// Checks that paths exist.
#[derive(Debug, Clone)]
pub struct FileSystemHealthChecker {
    pub paths: Vec<String>,
}

impl FileSystemHealthChecker {
    /// A checker for `paths`.
    pub fn new(paths: Vec<String>) -> (c: FileSystemHealthChecker)
        ensures
            c.paths == paths,
    {
        FileSystemHealthChecker { paths }
    }

    /// The file system result: critical, naming the first path that could
    /// not be read and why, or healthy with the number of paths checked.
    pub fn check_outcome(&self, failure: Option<(String, String)>, response_time_ms: u64, now: u64) -> (h: ComponentHealth)
        ensures
            h.component@ == "filesystem"@,
            h.response_time_ms == response_time_ms,
            h.last_checked == now,
            failure is None ==> h.status == HealthStatus::Healthy && h.message is None
                && h.metadata.view().dom() == set!["checked_paths"@]
                && h.metadata.view()["checked_paths"@]@ == decimal(self.paths@.len()),
            failure matches Some((p, e)) ==> {
                &&& h.status == HealthStatus::Critical
                &&& h.message matches Some(m) && m@ == "Cannot access path "@ + p@ + ": "@ + e@
                &&& h.metadata.view().dom() == set!["failed_path"@, "error"@]
                &&& h.metadata.view()["failed_path"@] == p
                &&& h.metadata.view()["error"@] == e
            },
    {
        match failure {
            Some((p, e)) => {
                let mut m = str_to_string("Cannot access path ");
                string_push_str(&mut m, p.as_str());
                string_push_str(&mut m, ": ");
                string_push_str(&mut m, e.as_str());
                let mut meta: StrMap<String> = StrMap::new();
                meta.insert(str_to_string("failed_path"), p);
                meta.insert(str_to_string("error"), e);
                proof {
                    reveal_strlit("failed_path");
                    reveal_strlit("error");
                    assert("failed_path"@ != "error"@) by {
                        assert("failed_path"@[0] != "error"@[0]);
                    }
                    assert(meta.view().dom() =~= set!["failed_path"@, "error"@]);
                }
                ComponentHealth {
                    component: str_to_string("filesystem"),
                    status: HealthStatus::Critical,
                    message: Some(m),
                    last_checked: now,
                    response_time_ms,
                    metadata: meta,
                }
            },
            None => {
                let mut h = ComponentHealth::healthy_at("filesystem", now);
                h.response_time_ms = response_time_ms;
                let n = u64_to_decimal(self.paths.len() as u64);
                let h = h.with_metadata("checked_paths", n.as_str());
                proof {
                    assert(h.metadata.view().dom() =~= set!["checked_paths"@]);
                }
                h
            },
        }
    }
}

} // verus!
