//! The write-ahead log's logic: entries and their checksums, the record
//! framing of segment files (a 4-byte big-endian length, then the encoded
//! entry), segment file names, the index of segments, rotation, retention
//! and the log's counters.

use vstd::prelude::*;
use bytes::Bytes;
use std::hash::{Hash, Hasher};
use crate::codec::{be_u32_bytes, be_u32_value, push_u32_be, read_u32_be};
use crate::clock::now_millis;
use crate::text::{chars_of, decimal, digit_char, push_decimal, str_to_string, string_push, string_push_str};

verus! {

/// Settings of a durable topic.
#[derive(Debug, Clone, Copy, PartialEq, Eq, Structural)]
pub struct TopicConfig {
    pub retention_ms: u64,
    pub max_message_size: usize,
    pub durable: bool,
}

impl Default for TopicConfig {
    /// Seven days of retention, 1 MiB messages, durable.
    fn default() -> (c: TopicConfig)
        ensures
            c == (TopicConfig { retention_ms: 604_800_000, max_message_size: 1_048_576, durable: true }),
    {
        TopicConfig { retention_ms: 7 * 24 * 60 * 60 * 1000, max_message_size: 1024 * 1024, durable: true }
    }
}

/// What a log entry records.
#[derive(Debug, Clone)]
pub enum WalEntryType {
    MessagePublished { topic: String, message_id: u64, payload: Bytes, timestamp: u64, ttl_ms: u64 },
    MessageAcknowledged { topic: String, message_id: u64, subscriber_id: String },
    TopicCreated { topic: String, config: TopicConfig },
    SubscriberRegistered { topic: String, subscriber_id: String, qos: u8 },
    Checkpoint { sequence: u64, timestamp: u64 },
}

/// The entry checksum: the sequence number and then the time stamp fed to
/// a `std::collections::hash_map::DefaultHasher::new()`, its 64-bit result
/// cut to 32 bits. Nothing is said of the value: std does not fix the
/// hashing algorithm or the byte order it feeds, so the same entry may get
/// another checksum on another machine or build.
#[verifier::external_body]
fn checksum_of(sequence: u64, timestamp: u64) -> u32 {
    let mut hasher = std::collections::hash_map::DefaultHasher::new();
    sequence.hash(&mut hasher);
    timestamp.hash(&mut hasher);
    hasher.finish() as u32
}

/// A log entry with its sequence number, time stamp and checksum.
#[derive(Debug, Clone)]
pub struct WalEntry {
    pub sequence: u64,
    pub timestamp: u64,
    pub entry_type: WalEntryType,
    pub checksum: u32,
}

impl WalEntry {
    /// An entry stamped `now` that carries `checksum`.
    pub fn with_checksum(sequence: u64, entry_type: WalEntryType, now: u64, checksum: u32) -> (e: WalEntry)
        ensures
            e == (WalEntry { sequence, timestamp: now, entry_type, checksum }),
    {
        WalEntry { sequence, timestamp: now, entry_type, checksum }
    }

    /// An entry stamped `now`, with the checksum computed for it.
    pub fn new_at(sequence: u64, entry_type: WalEntryType, now: u64) -> (e: WalEntry)
        ensures
            e.sequence == sequence,
            e.timestamp == now,
            e.entry_type == entry_type,
    {
        let c = checksum_of(sequence, now);
        WalEntry::with_checksum(sequence, entry_type, now, c)
    }

    /// An entry stamped by the clock, with the checksum computed for it.
    pub fn new(sequence: u64, entry_type: WalEntryType) -> (e: WalEntry)
        ensures
            e.sequence == sequence,
            e.entry_type == entry_type,
    {
        WalEntry::new_at(sequence, entry_type, now_millis())
    }

    /// The stored checksum is `expected`.
    pub fn matches_checksum(&self, expected: u32) -> (r: bool)
        ensures
            r == (self.checksum == expected),
    {
        self.checksum == expected
    }

    /// The stored checksum is the one computed for the entry now (see
    /// `matches_checksum`; the computed value itself is not known here).
    pub fn is_valid(&self) -> bool {
        let c = checksum_of(self.sequence, self.timestamp);
        self.matches_checksum(c)
    }
}

/// Log settings.
#[derive(Debug, Clone)]
pub struct WalConfig {
    pub directory: String,
    pub segment_size_bytes: u64,
    pub sync_interval_ms: u64,
    /// How many segments to keep.
    pub retention_segments: usize,
    pub enable_compression: bool,
    pub sync_on_write: bool,
}

impl Default for WalConfig {
    /// `./wal`, 100 MiB segments, synced every second, 100 segments kept,
    /// no compression, no sync on each write.
    fn default() -> (c: WalConfig)
        ensures
            c.directory@ == "./wal"@,
            c.segment_size_bytes == 104_857_600,
            c.sync_interval_ms == 1000,
            c.retention_segments == 100,
            !c.enable_compression,
            !c.sync_on_write,
    {
        WalConfig {
            directory: str_to_string("./wal"),
            segment_size_bytes: 100 * 1024 * 1024,
            sync_interval_ms: 1000,
            retention_segments: 100,
            enable_compression: false,
            sync_on_write: false,
        }
    }
}

/// Log counters. They wrap around as the atomic counters they model.
#[derive(Debug, Clone, Copy, PartialEq, Eq, Structural)]
pub struct WalStats {
    pub entries_written: u64,
    pub bytes_written: u64,
    pub sync_operations: u64,
    pub segment_rotations: u64,
    pub recovery_time_ms: u64,
    pub corrupted_entries: u64,
}

/// The log counters at one moment.
#[derive(Debug, Clone, Copy, PartialEq, Eq, Structural)]
pub struct WalStatsSnapshot {
    pub entries_written: u64,
    pub bytes_written: u64,
    pub sync_operations: u64,
    pub segment_rotations: u64,
    pub recovery_time_ms: u64,
    pub corrupted_entries: u64,
}

impl WalStats {
    /// Every counter at zero.
    pub fn new() -> (s: WalStats)
        ensures
            s == (WalStats {
                entries_written: 0,
                bytes_written: 0,
                sync_operations: 0,
                segment_rotations: 0,
                recovery_time_ms: 0,
                corrupted_entries: 0,
            }),
    {
        WalStats {
            entries_written: 0,
            bytes_written: 0,
            sync_operations: 0,
            segment_rotations: 0,
            recovery_time_ms: 0,
            corrupted_entries: 0,
        }
    }

    /// The counters' current values.
    pub fn snapshot(&self) -> (s: WalStatsSnapshot)
        ensures
            s == (WalStatsSnapshot {
                entries_written: self.entries_written,
                bytes_written: self.bytes_written,
                sync_operations: self.sync_operations,
                segment_rotations: self.segment_rotations,
                recovery_time_ms: self.recovery_time_ms,
                corrupted_entries: self.corrupted_entries,
            }),
    {
        WalStatsSnapshot {
            entries_written: self.entries_written,
            bytes_written: self.bytes_written,
            sync_operations: self.sync_operations,
            segment_rotations: self.segment_rotations,
            recovery_time_ms: self.recovery_time_ms,
            corrupted_entries: self.corrupted_entries,
        }
    }
}

/// The record of an encoded entry: its length as four big-endian bytes
/// (cut to 32 bits), then the entry.
pub open spec fn record_of(body: Seq<u8>) -> Seq<u8> {
    be_u32_bytes(body.len() as u32) + body
}

/// The record of an encoded entry.
pub fn encode_record(body: &[u8]) -> (out: Vec<u8>)
    ensures
        out@ == record_of(body@),
{
    let mut out: Vec<u8> = Vec::new();
    push_u32_be(&mut out, body.len() as u32);
    let mut i: usize = 0;
    while i < body.len()
        invariant
            i <= body@.len(),
            out@ == be_u32_bytes(body@.len() as u32) + body@.subrange(0, i as int),
        decreases body@.len() - i,
    {
        out.push(body[i]);
        i = i + 1;
        proof {
            assert(out@ =~= be_u32_bytes(body@.len() as u32) + body@.subrange(0, i as int));
        }
    }
    proof {
        assert(body@.subrange(0, body@.len() as int) =~= body@);
    }
    out
}

/// How reading a segment's records ended.
#[derive(Debug, Clone, Copy, PartialEq, Eq, Structural)]
pub enum ScanEnd {
    /// The data ended at a record boundary or inside a length prefix.
    EndOfData,
    /// A record announced more than the largest entry allowed.
    Oversized,
    /// A record's entry ran past the end of the data.
    Truncated,
}

/// The entries (as start and end offsets) of the records from offset
/// `pos` on, and how the reading ended: it stops at the end of the data or
/// inside a length prefix, at a record announcing more than `max_len`
/// bytes, or at a record whose entry is cut short.
pub open spec fn scan_from(data: Seq<u8>, pos: int, max_len: int) -> (Seq<(int, int)>, ScanEnd)
    decreases data.len() - pos,
{
    if pos < 0 || pos + 4 > data.len() {
        (Seq::empty(), ScanEnd::EndOfData)
    } else {
        let n = be_u32_value(data[pos], data[pos + 1], data[pos + 2], data[pos + 3]);
        if n > max_len {
            (Seq::empty(), ScanEnd::Oversized)
        } else if pos + 4 + n > data.len() {
            (Seq::empty(), ScanEnd::Truncated)
        } else {
            let rest = scan_from(data, pos + 4 + n, max_len);
            (seq![(pos + 4, pos + 4 + n)] + rest.0, rest.1)
        }
    }
}

/// The largest entry a segment may hold: 10 MiB.
pub const MAX_ENTRY_LEN: usize = 10485760;

/// Reads the records of a segment's bytes: the start and end offset of
/// each entry, in order, and how the reading ended (see `scan_from`).
pub fn scan_records(data: &[u8], max_len: usize) -> (r: (Vec<(usize, usize)>, ScanEnd))
    ensures
        r.0@.len() == scan_from(data@, 0, max_len as int).0.len(),
        forall|i: int| 0 <= i < r.0@.len() ==> (#[trigger] r.0@[i]).0 == scan_from(data@, 0, max_len as int).0[i].0
            && r.0@[i].1 == scan_from(data@, 0, max_len as int).0[i].1,
        r.1 == scan_from(data@, 0, max_len as int).1,
{
    let n = data.len();
    let mut out: Vec<(usize, usize)> = Vec::new();
    let mut pos: usize = 0;
    let ghost m = max_len as int;
    loop
        invariant
            n == data@.len(),
            pos <= n,
            m == max_len,
            out@.len() + scan_from(data@, pos as int, m).0.len() == scan_from(data@, 0, m).0.len(),
            forall|i: int| 0 <= i < out@.len() ==> (#[trigger] out@[i]).0 == scan_from(data@, 0, m).0[i].0
                && out@[i].1 == scan_from(data@, 0, m).0[i].1,
            forall|i: int| 0 <= i < scan_from(data@, pos as int, m).0.len() ==>
                #[trigger] scan_from(data@, pos as int, m).0[i] == scan_from(data@, 0, m).0[out@.len() + i],
            scan_from(data@, pos as int, m).1 == scan_from(data@, 0, m).1,
        decreases n - pos,
    {
        if n - pos < 4 {
            return (out, ScanEnd::EndOfData);
        }
        let len = read_u32_be(data, pos) as usize;
        if len > max_len {
            return (out, ScanEnd::Oversized);
        }
        if n - pos - 4 < len {
            return (out, ScanEnd::Truncated);
        }
        let ghost before = out@;
        let ghost rest = scan_from(data@, (pos + 4 + len) as int, m);
        proof {
            assert(scan_from(data@, pos as int, m).0 == seq![(pos + 4, pos + 4 + len)] + rest.0);
            assert(scan_from(data@, pos as int, m).0[0] == (pos + 4, pos + 4 + len));
        }
        out.push((pos + 4, pos + 4 + len));
        proof {
            assert forall|i: int| 0 <= i < rest.0.len() implies
                #[trigger] rest.0[i] == scan_from(data@, 0, m).0[out@.len() + i] by {
                assert(scan_from(data@, pos as int, m).0[i + 1] == rest.0[i]);
            }
        }
        pos = pos + 4 + len;
    }
}

/// `s` is a non-empty run of ASCII digits.
pub open spec fn all_digits(s: Seq<char>) -> bool {
    s.len() > 0 && forall|i: int| 0 <= i < s.len() ==> '0' <= #[trigger] s[i] <= '9'
}

/// The value of a run of decimal digits.
pub open spec fn digits_value(s: Seq<char>) -> nat
    decreases s.len(),
{
    if s.len() == 0 {
        0
    } else {
        digits_value(s.drop_last()) * 10 + ((s.last() as u32) - 48) as nat
    }
}

/// What `str::parse::<u64>` gives: an optional `+` then decimal digits
/// whose value fits, or nothing.
pub open spec fn parsed_u64(s: Seq<char>) -> Option<u64> {
    let d = if s.len() > 0 && s[0] == '+' { s.drop_first() } else { s };
    if all_digits(d) && digits_value(d) <= u64::MAX {
        Some(digits_value(d) as u64)
    } else {
        None
    }
}

proof fn lemma_digits_prefix_le(s: Seq<char>, k: int)
    requires
        0 <= k <= s.len(),
    ensures
        digits_value(s.subrange(0, k)) <= digits_value(s),
    decreases s.len() - k,
{
    if k < s.len() {
        lemma_digits_prefix_le(s, k + 1);
        assert(s.subrange(0, k + 1).drop_last() =~= s.subrange(0, k));
    } else {
        assert(s.subrange(0, k) =~= s);
    }
}

/// Reads a decimal number as `str::parse::<u64>` does.
pub fn parse_u64(s: &str) -> (r: Option<u64>)
    ensures
        r == parsed_u64(s@),
{
    let cs = chars_of(s);
    let start: usize = if cs.len() > 0 && cs[0] == '+' { 1 } else { 0 };
    let ghost d = if s@.len() > 0 && s@[0] == '+' { s@.drop_first() } else { s@ };
    proof {
        assert(d =~= cs@.subrange(start as int, cs@.len() as int));
    }
    if start >= cs.len() {
        return None;
    }
    let mut v: u64 = 0;
    let mut i: usize = start;
    while i < cs.len()
        invariant
            cs@ == s@,
            d == (if s@.len() > 0 && s@[0] == '+' { s@.drop_first() } else { s@ }),
            d == cs@.subrange(start as int, cs@.len() as int),
            start <= i <= cs@.len(),
            forall|j: int| start <= j < i ==> '0' <= #[trigger] cs@[j] <= '9',
            v == digits_value(cs@.subrange(start as int, i as int)),
        decreases cs@.len() - i,
    {
        let c = cs[i];
        if !('0' <= c && c <= '9') {
            proof {
                assert(d[i - start] == c);
                assert(!all_digits(d));
            }
            return None;
        }
        let digit = (c as u32 - 48) as u64;
        let ghost pre = cs@.subrange(start as int, i as int);
        let ghost next = cs@.subrange(start as int, i + 1);
        proof {
            assert(next.drop_last() =~= pre);
            assert(next.last() == c);
        }
        if v > (u64::MAX - digit) / 10 {
            proof {
                assert(digits_value(next) > u64::MAX) by (nonlinear_arith)
                    requires
                        digits_value(next) == v * 10 + digit,
                        v > (u64::MAX - digit) / 10,
                        digit <= 9,
                ;
                if all_digits(d) {
                    assert(next =~= d.subrange(0, i + 1 - start));
                    lemma_digits_prefix_le(d, i + 1 - start);
                }
                assert(parsed_u64(s@) is None);
            }
            return None;
        }
        proof {
            assert(v * 10 + digit <= u64::MAX) by (nonlinear_arith)
                requires
                    v <= (u64::MAX - digit) / 10,
                    digit <= 9,
            ;
        }
        v = v * 10 + digit;
        i = i + 1;
    }
    proof {
        assert(cs@.subrange(start as int, i as int) =~= d);
    }
    Some(v)
}

/// `digits` with zeros in front up to `width` characters.
pub open spec fn zero_padded(digits: Seq<char>, width: nat) -> Seq<char> {
    if digits.len() >= width {
        digits
    } else {
        Seq::new((width - digits.len()) as nat, |i: int| '0') + digits
    }
}

/// The file name of segment `id`: `wal-`, the id in decimal padded with
/// zeros to ten digits, and `.log`.
pub open spec fn segment_file_name_of(id: u64) -> Seq<char> {
    "wal-"@ + zero_padded(decimal(id as nat), 10) + ".log"@
}

/// The file name of segment `id`.
pub fn segment_file_name(id: u64) -> (s: String)
    ensures
        s@ == segment_file_name_of(id),
{
    let digits = crate::text::u64_to_decimal(id);
    let len = chars_of(digits.as_str()).len();
    let mut s = str_to_string("wal-");
    let mut k: usize = len;
    let ghost pad_start = s@;
    while k < 10
        invariant
            len <= k <= 10 || (len > 10 && k == len),
            s@ == pad_start + Seq::new((k - len) as nat, |i: int| '0'),
        decreases 10 - k,
    {
        string_push(&mut s, '0');
        proof {
            assert(s@ =~= pad_start + Seq::new((k + 1 - len) as nat, |i: int| '0'));
        }
        k = k + 1;
    }
    string_push_str(&mut s, digits.as_str());
    string_push_str(&mut s, ".log");
    proof {
        if len >= 10 {
            assert(Seq::new(0nat, |i: int| '0') =~= Seq::<char>::empty());
        }
        assert(s@ =~= segment_file_name_of(id));
    }
    s
}

/// The segment id a file name stands for: `wal-`, a number as
/// `str::parse::<u64>` reads it, and `.log`.
pub open spec fn segment_id_of_name(name: Seq<char>) -> Option<u64> {
    if name.len() >= 8 && name.subrange(0, 4) == "wal-"@ && name.subrange(name.len() - 4, name.len() as int) == ".log"@ {
        parsed_u64(name.subrange(4, name.len() - 4))
    } else {
        None
    }
}

/// The segment id a file name stands for, if it is a segment's name.
pub fn parse_segment_file_name(name: &str) -> (r: Option<u64>)
    ensures
        r == segment_id_of_name(name@),
{
    let cs = chars_of(name);
    let n = cs.len();
    proof {
        reveal_strlit("wal-");
        reveal_strlit(".log");
    }
    if n < 8 {
        return None;
    }
    if !(cs[0] == 'w' && cs[1] == 'a' && cs[2] == 'l' && cs[3] == '-') {
        proof {
            assert(name@.subrange(0, 4) != "wal-"@) by {
                if name@.subrange(0, 4) == "wal-"@ {
                    assert(name@.subrange(0, 4)[0] == 'w');
                    assert(name@.subrange(0, 4)[1] == 'a');
                    assert(name@.subrange(0, 4)[2] == 'l');
                    assert(name@.subrange(0, 4)[3] == '-');
                }
            }
        }
        return None;
    }
    if !(cs[n - 4] == '.' && cs[n - 3] == 'l' && cs[n - 2] == 'o' && cs[n - 1] == 'g') {
        proof {
            let t = name@.subrange(n - 4, n as int);
            assert(t != ".log"@) by {
                if t == ".log"@ {
                    assert(t[0] == '.' && t[1] == 'l' && t[2] == 'o' && t[3] == 'g');
                }
            }
        }
        return None;
    }
    proof {
        assert(name@.subrange(0, 4) =~= "wal-"@);
        assert(name@.subrange(n - 4, n as int) =~= ".log"@);
    }
    let middle = crate::text::string_of_chars(&cs.as_slice()[4..n - 4]);
    proof {
        assert(middle@ =~= name@.subrange(4, n - 4));
    }
    parse_u64(middle.as_str())
}

/// The segment a sequence number opens: sequence numbers are grouped by ten thousand.
pub fn segment_id_for(sequence: u64) -> (id: u64)
    ensures
        id == sequence / 10000,
{
    sequence / 10000
}

/// The segments by id, oldest first: each id once, in increasing order.
#[derive(Debug)]
pub struct SegmentIndex {
    segments: Vec<(u64, String)>,
}

/// The ids strictly increase.
pub open spec fn ids_increasing(s: Seq<(u64, String)>) -> bool {
    forall|i: int, j: int| 0 <= i < j < s.len() ==> s[i].0 < s[j].0
}

impl SegmentIndex {
    /// The segments, oldest first.
    pub closed spec fn view(&self) -> Seq<(u64, String)> {
        self.segments@
    }

    /// The index is ordered by id.
    pub closed spec fn wf(&self) -> bool {
        ids_increasing(self.segments@)
    }

    /// No segments.
    pub fn new() -> (x: SegmentIndex)
        ensures
            x.wf(),
            x.view().len() == 0,
    {
        SegmentIndex { segments: Vec::new() }
    }

    /// Records segment `id` at `path`, replacing the path of a known id.
    pub fn insert(&mut self, id: u64, path: String)
        requires
            old(self).wf(),
        ensures
            final(self).wf(),
            exists|i: int| 0 <= i < final(self).view().len() && #[trigger] final(self).view()[i] == (id, path),
            forall|k: u64, p: String| #[trigger] final(self).view().contains((k, p)) <==>
                ((k, p) == (id, path) || (k != id && old(self).view().contains((k, p)))),
    {
        let n = self.segments.len();
        let mut i: usize = 0;
        while i < n && self.segments[i].0 < id
            invariant
                n == self.segments@.len(),
                *self == *old(self),
                i <= n,
                forall|j: int| 0 <= j < i ==> #[trigger] self.segments@[j].0 < id,
            decreases n - i,
        {
            i = i + 1;
        }
        let ghost before = self.segments@;
        if i < n && self.segments[i].0 == id {
            let mut v: Vec<(u64, String)> = Vec::new();
            std::mem::swap(&mut v, &mut self.segments);
            v.set(i, (id, path));
            self.segments = v;
            proof {
                let after = self.segments@;
                assert(after[i as int] == (id, path));
                assert(self.view()[i as int] == (id, path));
                assert forall|k: u64, p: String| #[trigger] after.contains((k, p)) <==>
                    ((k, p) == (id, path) || (k != id && before.contains((k, p)))) by {
                    if after.contains((k, p)) {
                        let q = choose|q: int| 0 <= q < after.len() && after[q] == (k, p);
                        if q != i {
                            assert(before[q] == (k, p));
                            assert(before[q].0 != before[i as int].0);
                        }
                    }
                    if k != id && before.contains((k, p)) {
                        let q = choose|q: int| 0 <= q < before.len() && before[q] == (k, p);
                        assert(q != i);
                        assert(after[q] == (k, p));
                    }
                    if (k, p) == (id, path) {
                        assert(after[i as int] == (k, p));
                    }
                }
            }
        } else {
            self.segments.insert(i, (id, path));
            proof {
                let after = self.segments@;
                assert(after =~= before.insert(i as int, (id, path)));
                assert(after[i as int] == (id, path));
                assert(self.view()[i as int] == (id, path));
                assert forall|a: int, b: int| 0 <= a < b < after.len() implies after[a].0 < after[b].0 by {
                    if b < i {
                        assert(after[a] == before[a] && after[b] == before[b]);
                    } else if b == i {
                        assert(after[a] == before[a]);
                    } else if a < i {
                        assert(after[a] == before[a] && after[b] == before[b - 1]);
                    } else if a == i {
                        assert(after[b] == before[b - 1]);
                    } else {
                        assert(after[a] == before[a - 1] && after[b] == before[b - 1]);
                    }
                }
                assert forall|k: u64, p: String| #[trigger] after.contains((k, p)) <==>
                    ((k, p) == (id, path) || (k != id && before.contains((k, p)))) by {
                    if after.contains((k, p)) {
                        let q = choose|q: int| 0 <= q < after.len() && after[q] == (k, p);
                        if q < i {
                            assert(before[q] == (k, p));
                        } else if q > i {
                            assert(before[q - 1] == (k, p));
                        }
                    }
                    if k != id && before.contains((k, p)) {
                        let q = choose|q: int| 0 <= q < before.len() && before[q] == (k, p);
                        if q < i {
                            assert(after[q] == (k, p));
                        } else {
                            assert(after[q + 1] == (k, p));
                        }
                    }
                    if (k, p) == (id, path) {
                        assert(after[i as int] == (k, p));
                    }
                }
            }
        }
    }

    /// The number of segments.
    pub fn len(&self) -> (n: usize)
        ensures
            n == self.view().len(),
    {
        self.segments.len()
    }

    /// Takes the oldest segments beyond the `retention` newest, oldest
    /// first; the rest stay.
    pub fn take_excess(&mut self, retention: usize) -> (removed: Vec<(u64, String)>)
        requires
            old(self).wf(),
        ensures
            final(self).wf(),
            old(self).view().len() <= retention ==> removed@.len() == 0 && final(self).view() == old(self).view(),
            old(self).view().len() > retention ==> {
                let k = old(self).view().len() - retention;
                &&& removed@ == old(self).view().subrange(0, k)
                &&& final(self).view() == old(self).view().subrange(k, old(self).view().len() as int)
            },
    {
        let n = self.segments.len();
        if n <= retention {
            return Vec::new();
        }
        let k = n - retention;
        let mut all: Vec<(u64, String)> = Vec::new();
        std::mem::swap(&mut all, &mut self.segments);
        let ghost before = all@;
        let kept = all.split_off(k);
        self.segments = kept;
        proof {
            assert forall|a: int, b: int| 0 <= a < b < self.segments@.len() implies
                self.segments@[a].0 < self.segments@[b].0 by {
                assert(self.segments@[a] == before[a + k] && self.segments@[b] == before[b + k]);
            }
        }
        all
    }
}

/// The path of file `name` in directory `dir`, joined as on Unix: the name
/// alone for an empty directory, else the directory, a `/` unless it ends
/// with one, and the name.
pub open spec fn joined_path(dir: Seq<char>, name: Seq<char>) -> Seq<char> {
    if dir.len() == 0 {
        name
    } else if dir.last() == '/' {
        dir + name
    } else {
        dir + seq!['/'] + name
    }
}

/// Joins a directory and a file name (see `joined_path`).
pub fn join_path(dir: &str, name: &str) -> (p: String)
    ensures
        p@ == joined_path(dir@, name@),
{
    let d = chars_of(dir);
    let mut p = str_to_string(dir);
    if d.len() > 0 && d[d.len() - 1] != '/' {
        string_push(&mut p, '/');
    }
    string_push_str(&mut p, name);
    p
}

/// Some indexed segment has id `id`.
pub open spec fn indexed(idx: Seq<(u64, String)>, id: u64) -> bool {
    exists|j: int| 0 <= j < idx.len() && (#[trigger] idx[j]).0 == id
}

/// The segment being written.
#[derive(Debug, Clone, Copy, PartialEq, Eq, Structural)]
pub struct SegmentState {
    pub id: u64,
    pub size: u64,
    pub start_sequence: u64,
    pub end_sequence: u64,
}

/// The log's bookkeeping: the segment being written, the index of
/// segments, the next sequence number and the counters. Files are opened,
/// written and synced by the caller as the steps direct.
#[derive(Debug)]
pub struct WalState {
    directory: String,
    segment_size_bytes: u64,
    retention_segments: usize,
    current: Option<SegmentState>,
    segments: SegmentIndex,
    sequence_counter: u64,
    stats: WalStats,
}

impl WalState {
    /// The segment being written, if any.
    pub closed spec fn segment(&self) -> Option<SegmentState> {
        self.current
    }

    /// The log's counters.
    pub closed spec fn counters(&self) -> WalStats {
        self.stats
    }

    /// The log's counters now.
    pub fn stats(&self) -> (s: WalStatsSnapshot)
        ensures
            s == self.counters().snapshot_spec(),
    {
        self.stats.snapshot()
    }

    /// The known segments, oldest first.
    pub closed spec fn index(&self) -> Seq<(u64, String)> {
        self.segments.view()
    }

    /// The next sequence number to hand out.
    pub closed spec fn next_seq(&self) -> u64 {
        self.sequence_counter
    }

    /// The segment size that calls for a new segment.
    pub closed spec fn rotate_at(&self) -> u64 {
        self.segment_size_bytes
    }

    /// How many of the newest segments are kept.
    pub closed spec fn retention(&self) -> usize {
        self.retention_segments
    }

    /// The log's directory.
    pub closed spec fn dir(&self) -> Seq<char> {
        self.directory@
    }

    /// The index is ordered by id.
    pub closed spec fn wf(&self) -> bool {
        self.segments.wf()
    }

    /// A log with no segments, starting at sequence 0.
    pub fn new(config: &WalConfig) -> (w: WalState)
        ensures
            w.wf(),
            w.segment() is None,
            w.index().len() == 0,
            w.next_seq() == 0,
            w.rotate_at() == config.segment_size_bytes,
            w.dir() == config.directory@,
            w.retention() == config.retention_segments,
            w.counters() == WalStats::new_spec(),
    {
        WalState {
            directory: config.directory.clone(),
            segment_size_bytes: config.segment_size_bytes,
            retention_segments: config.retention_segments,
            current: None,
            segments: SegmentIndex::new(),
            sequence_counter: 0,
            stats: WalStats::new(),
        }
    }

    /// After recovery: the segments found are indexed, numbering resumes
    /// after the largest sequence number replayed, and the recovery time
    /// and corrupted entries are counted.
    pub fn recovered(&mut self, found: Vec<(u64, String)>, max_sequence: u64, corrupted: u64, recovery_ms: u64)
        requires
            old(self).wf(),
            max_sequence < u64::MAX,
        ensures
            final(self).wf(),
            final(self).next_seq() == max_sequence + 1,
            final(self).counters().recovery_time_ms == recovery_ms,
            final(self).counters().corrupted_entries == crate::collector::wrap_add(old(self).counters().corrupted_entries, corrupted),
            forall|i: int| 0 <= i < found@.len() ==> #[trigger] indexed(final(self).index(), found@[i].0),
            final(self).segment() == old(self).segment(),
    {
        let mut i: usize = 0;
        while i < found.len()
            invariant
                self.segments.wf(),
                i <= found@.len(),
                forall|a: int| 0 <= a < i ==> #[trigger] indexed(self.segments.view(), found@[a].0),
                self.current == old(self).current,
                self.stats == old(self).stats,
            decreases found@.len() - i,
        {
            let id = found[i].0;
            let path = found[i].1.clone();
            let ghost before = self.segments.view();
            self.segments.insert(id, path);
            proof {
                assert forall|a: int| 0 <= a < i + 1 implies #[trigger] indexed(self.segments.view(), found@[a].0) by {
                    if a < i {
                        assert(indexed(before, found@[a].0));
                        let j = choose|j: int| 0 <= j < before.len() && (#[trigger] before[j]).0 == found@[a].0;
                        if before[j].0 != id {
                            let e = (before[j].0, before[j].1);
                            assert(before[j] == e);
                            assert(before.contains(e));
                            assert(self.segments.view().contains((before[j].0, before[j].1)));
                            let q = choose|q: int| 0 <= q < self.segments.view().len() && self.segments.view()[q] == e;
                            assert(self.segments.view()[q].0 == found@[a].0);
                        } else {
                            let q = choose|q: int| 0 <= q < self.segments.view().len() && #[trigger] self.segments.view()[q] == (id, path);
                            assert(self.segments.view()[q].0 == found@[a].0);
                        }
                    } else {
                        let q = choose|q: int| 0 <= q < self.segments.view().len() && #[trigger] self.segments.view()[q] == (id, path);
                        assert(self.segments.view()[q].0 == found@[a].0);
                    }
                }
            }
            i = i + 1;
        }
        self.sequence_counter = max_sequence + 1;
        self.stats.recovery_time_ms = recovery_ms;
        self.stats.corrupted_entries = self.stats.corrupted_entries.wrapping_add(corrupted);
    }

    /// Hands out the next sequence number (wrapping after `u64::MAX`).
    pub fn next_sequence(&mut self) -> (seq: u64)
        ensures
            seq == old(self).next_seq(),
            final(self).next_seq() == crate::collector::wrap_add(seq, 1),
            final(self).segment() == old(self).segment(),
            final(self).index() == old(self).index(),
            final(self).counters() == old(self).counters(),
            final(self).wf() == old(self).wf(),
    {
        let seq = self.sequence_counter;
        self.sequence_counter = seq.wrapping_add(1);
        seq
    }

    /// The sequence number a checkpoint records: the next one to hand out.
    pub fn checkpoint_sequence(&self) -> (seq: u64)
        ensures
            seq == self.next_seq(),
    {
        self.sequence_counter
    }

    /// Before writing entry `sequence`: when there is no segment yet or the
    /// current one has reached the segment size, a new segment (numbered by
    /// `segment_id_for`) becomes current and indexed, the rotation is
    /// counted when a segment was open, and its id and path are returned
    /// for the caller to open.
    pub fn prepare_write(&mut self, sequence: u64) -> (opened: Option<(u64, String)>)
        requires
            old(self).wf(),
        ensures
            final(self).wf(),
            ({
                let rotate = match old(self).segment() {
                    None => true,
                    Some(s) => s.size >= old(self).rotate_at(),
                };
                if rotate {
                    &&& opened matches Some((id, path)) && id == sequence / 10000
                        && path@ == joined_path(old(self).dir(), segment_file_name_of(id))
                    &&& final(self).segment() == Some(SegmentState {
                        id: sequence / 10000,
                        size: 0,
                        start_sequence: sequence,
                        end_sequence: sequence,
                    })
                    &&& final(self).counters().segment_rotations == (if old(self).segment() is Some {
                        crate::collector::wrap_add(old(self).counters().segment_rotations, 1)
                    } else {
                        old(self).counters().segment_rotations
                    })
                    &&& exists|j: int| 0 <= j < final(self).index().len() && (#[trigger] final(self).index()[j]).0
                        == sequence / 10000
                } else {
                    &&& opened is None
                    &&& final(self).segment() == old(self).segment()
                    &&& final(self).index() == old(self).index()
                    &&& final(self).counters() == old(self).counters()
                }
            }),
            final(self).next_seq() == old(self).next_seq(),
            final(self).rotate_at() == old(self).rotate_at(),
            final(self).dir() == old(self).dir(),
    {
        let rotate = match self.current {
            None => true,
            Some(s) => s.size >= self.segment_size_bytes,
        };
        if !rotate {
            return None;
        }
        if self.current.is_some() {
            self.stats.segment_rotations = self.stats.segment_rotations.wrapping_add(1);
        }
        let id = segment_id_for(sequence);
        let name = segment_file_name(id);
        let path = join_path(self.directory.as_str(), name.as_str());
        self.segments.insert(id, path.clone());
        self.current = Some(SegmentState { id, size: 0, start_sequence: sequence, end_sequence: sequence });
        proof {
            let q = choose|q: int| 0 <= q < self.segments.view().len() && #[trigger] self.segments.view()[q] == (id, path);
            assert(self.index()[q].0 == id);
        }
        Some((id, path))
    }

    /// After the record of entry `sequence`, `record_len` bytes long, was
    /// written to the current segment: the segment grows and ends at that
    /// entry, and the entry and its bytes are counted.
    pub fn record_written(&mut self, sequence: u64, record_len: u64)
        requires
            old(self).segment() matches Some(s) ==> s.size + record_len <= u64::MAX,
        ensures
            final(self).segment() == (match old(self).segment() {
                Some(s) => Some(SegmentState { size: (s.size + record_len) as u64, end_sequence: sequence, ..s }),
                None => None,
            }),
            final(self).counters().entries_written == crate::collector::wrap_add(old(self).counters().entries_written, 1),
            final(self).counters().bytes_written == (if old(self).segment() is Some {
                crate::collector::wrap_add(old(self).counters().bytes_written, record_len)
            } else {
                old(self).counters().bytes_written
            }),
            final(self).index() == old(self).index(),
            final(self).wf() == old(self).wf(),
            final(self).next_seq() == old(self).next_seq(),
            final(self).rotate_at() == old(self).rotate_at(),
            final(self).dir() == old(self).dir(),
    {
        match self.current {
            Some(s) => {
                self.current = Some(SegmentState { size: s.size + record_len, end_sequence: sequence, ..s });
                self.stats.bytes_written = self.stats.bytes_written.wrapping_add(record_len);
            },
            None => {},
        }
        self.stats.entries_written = self.stats.entries_written.wrapping_add(1);
    }

    /// Counts a sync of the current segment.
    pub fn record_sync(&mut self)
        ensures
            final(self).counters().sync_operations == crate::collector::wrap_add(old(self).counters().sync_operations, 1),
            final(self).segment() == old(self).segment(),
            final(self).index() == old(self).index(),
            final(self).wf() == old(self).wf(),
            final(self).next_seq() == old(self).next_seq(),
    {
        self.stats.sync_operations = self.stats.sync_operations.wrapping_add(1);
    }

    /// Takes the segments beyond the retained number, oldest first, for
    /// the caller to delete (see `SegmentIndex::take_excess`).
    pub fn take_old_segments(&mut self) -> (removed: Vec<(u64, String)>)
        requires
            old(self).wf(),
        ensures
            final(self).wf(),
            removed@ + final(self).index() == old(self).index(),
            removed@.len() == (if old(self).index().len() > old(self).retention() {
                old(self).index().len() - old(self).retention()
            } else {
                0
            }),
            final(self).retention() == old(self).retention(),
            final(self).segment() == old(self).segment(),
            final(self).next_seq() == old(self).next_seq(),
    {
        let r = self.segments.take_excess(self.retention_segments);
        proof {
            let n = old(self).index().len();
            if n > self.retention_segments {
                assert(old(self).index().subrange(0, n - self.retention_segments as int)
                    + old(self).index().subrange(n - self.retention_segments as int, n as int) =~= old(self).index());
            } else {
                assert(r@ + self.index() =~= old(self).index());
            }
        }
        r
    }
}

impl WalStats {
    /// The snapshot of these counters.
    pub open spec fn snapshot_spec(self) -> WalStatsSnapshot {
        WalStatsSnapshot {
            entries_written: self.entries_written,
            bytes_written: self.bytes_written,
            sync_operations: self.sync_operations,
            segment_rotations: self.segment_rotations,
            recovery_time_ms: self.recovery_time_ms,
            corrupted_entries: self.corrupted_entries,
        }
    }

    /// Every counter at zero.
    pub open spec fn new_spec() -> WalStats {
        WalStats {
            entries_written: 0,
            bytes_written: 0,
            sync_operations: 0,
            segment_rotations: 0,
            recovery_time_ms: 0,
            corrupted_entries: 0,
        }
    }
}


/// A record written alone reads back as one entry spanning the bytes
/// written, and the reading ends cleanly.
pub proof fn lemma_record_roundtrip(body: Seq<u8>, max_len: int)
    requires
        body.len() <= max_len,
        body.len() <= u32::MAX,
    ensures
        scan_from(record_of(body), 0, max_len) == (seq![(4int, 4int + body.len())], ScanEnd::EndOfData),
        record_of(body).subrange(4, 4int + body.len()) == body,
{
    let r = record_of(body);
    let n = body.len() as u32;
    crate::codec::lemma_be_u32_roundtrip(n);
    assert(r[0] == be_u32_bytes(n)[0] && r[1] == be_u32_bytes(n)[1] && r[2] == be_u32_bytes(n)[2]
        && r[3] == be_u32_bytes(n)[3]);
    assert(scan_from(r, 4int + body.len(), max_len) == (Seq::<(int, int)>::empty(), ScanEnd::EndOfData));
    assert(seq![(4int, 4int + body.len())] + Seq::<(int, int)>::empty() =~= seq![(4int, 4int + body.len())]);
    assert(r.subrange(4, 4int + body.len()) =~= body);
}

proof fn lemma_decimal_digits(n: nat)
    ensures
        all_digits(decimal(n)),
        digits_value(decimal(n)) == n,
    decreases n,
{
    let d = n % 10;
    assert(digit_char(d) as u32 - 48 == d) by {
        reveal_with_fuel(digit_char, 1);
    }
    if n >= 10 {
        lemma_decimal_digits(n / 10);
        let s = decimal(n / 10).push(digit_char(n % 10));
        assert(s.drop_last() =~= decimal(n / 10));
        assert(forall|i: int| 0 <= i < s.len() - 1 ==> s[i] == decimal(n / 10)[i]);
        assert(s.last() == digit_char(d));
        assert(decimal(n) == s);
        assert(digits_value(s) == digits_value(decimal(n / 10)) * 10 + d);
        assert((n / 10) * 10 + n % 10 == n);
    } else {
        let s = seq![digit_char(n)];
        assert(s.drop_last() =~= Seq::<char>::empty());
        assert(decimal(n) == s);
        assert(digits_value(s) == digits_value(s.drop_last()) * 10 + ((s.last() as u32) - 48) as nat);
        assert(n % 10 == n);
    }
}

proof fn lemma_zeros_value(k: nat)
    ensures
        digits_value(Seq::new(k, |i: int| '0')) == 0,
    decreases k,
{
    if k > 0 {
        lemma_zeros_value((k - 1) as nat);
        assert(Seq::new(k, |i: int| '0').drop_last() =~= Seq::new((k - 1) as nat, |i: int| '0'));
    }
}

proof fn lemma_zeros_prefix(k: nat, s: Seq<char>)
    ensures
        digits_value(Seq::new(k, |i: int| '0') + s) == digits_value(s),
    decreases s.len(),
{
    let z = Seq::new(k, |i: int| '0');
    if s.len() == 0 {
        assert(z + s =~= z);
        lemma_zeros_value(k);
    } else {
        lemma_zeros_prefix(k, s.drop_last());
        assert((z + s).drop_last() =~= z + s.drop_last());
        assert((z + s).last() == s.last());
    }
}

/// A segment's file name reads back as its id.
pub proof fn lemma_segment_name_roundtrip(id: u64)
    ensures
        segment_id_of_name(segment_file_name_of(id)) == Some(id),
{
    reveal_strlit("wal-");
    reveal_strlit(".log");
    let digits = decimal(id as nat);
    lemma_decimal_digits(id as nat);
    let z = zero_padded(digits, 10);
    if digits.len() < 10 {
        let k = (10 - digits.len()) as nat;
        lemma_zeros_prefix(k, digits);
        assert(z == Seq::new(k, |i: int| '0') + digits);
        assert(all_digits(z)) by {
            assert forall|i: int| 0 <= i < z.len() implies '0' <= #[trigger] z[i] <= '9' by {
                if i >= k {
                    assert(z[i] == digits[i - k]);
                }
            }
        }
    }
    let name = segment_file_name_of(id);
    assert(name =~= "wal-"@ + z + ".log"@);
    assert(name.subrange(0, 4) =~= "wal-"@);
    assert(name.subrange(name.len() - 4, name.len() as int) =~= ".log"@);
    assert(name.subrange(4, name.len() - 4) =~= z);
    assert(z[0] != '+');
}
} // verus!
