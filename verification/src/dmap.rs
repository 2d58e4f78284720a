//! The concurrent maps: by message id, the deliveries awaiting
//! acknowledgement and the acknowledgements received; by name, lists of
//! numbers (the message ids each subscriber was sent, the request times of
//! each user). Each map is a
//! `dashmap::DashMap`; its contents are named, and each method the library
//! calls is stated over that name (a `String` key by its text, as `String`'s
//! `Eq` and `Hash` compare and hash the text).

use vstd::prelude::*;
use dashmap::DashMap;
use crate::qos::{Acknowledgment, PendingMessage};

verus! {

/// Deliveries awaiting acknowledgement, by message id.
pub type PendingMap = DashMap<u64, PendingMessage>;

/// Acknowledgements, by message id.
pub type AckMap = DashMap<u64, Acknowledgment>;

#[verifier::external_type_specification]
#[verifier::external_body]
#[verifier::reject_recursive_types(K)]
#[verifier::reject_recursive_types(V)]
#[verifier::reject_recursive_types(S)]
pub struct ExDashMap<K, V, S>(DashMap<K, V, S>);

/// The deliveries a map of pending deliveries holds, by message id.
pub uninterp spec fn pending_entries(m: PendingMap) -> Map<u64, PendingMessage>;

/// The acknowledgements a map of acknowledgements holds, by message id.
pub uninterp spec fn ack_entries(m: AckMap) -> Map<u64, Acknowledgment>;

/// Connection numbers by topic name.
pub type ConnListMap = DashMap<String, Vec<usize>>;

/// The connection lists a map of connection lists holds, by topic name.
pub uninterp spec fn conn_lists(m: ConnListMap) -> Map<Seq<char>, Seq<usize>>;

/// `DashMap::new`: an empty map.
#[verifier::external_body]
pub(crate) fn conn_lists_new() -> (m: ConnListMap)
    ensures
        conn_lists(m).dom() == Set::<Seq<char>>::empty(),
{
    DashMap::new()
}

/// `DashMap::get`: a copy of the list of `key`, if it has an entry.
#[verifier::external_body]
pub(crate) fn conn_lists_get(m: &ConnListMap, key: &str) -> (r: Option<Vec<usize>>)
    ensures
        r is None <==> !conn_lists(*m).contains_key(key@),
        r matches Some(v) ==> v@ == conn_lists(*m)[key@],
{
    m.get(key).map(|e| e.value().clone())
}

/// `DashMap::remove`: takes the entry of `key` out, giving back its list.
#[verifier::external_body]
pub(crate) fn conn_lists_remove(m: &mut ConnListMap, key: &str) -> (r: Option<Vec<usize>>)
    ensures
        conn_lists(*final(m)) == conn_lists(*old(m)).remove(key@),
        r is None <==> !conn_lists(*old(m)).contains_key(key@),
        r matches Some(v) ==> v@ == conn_lists(*old(m))[key@],
{
    m.remove(key).map(|(_, v)| v)
}

/// `DashMap::insert`: sets the entry of `key` to `conns`.
#[verifier::external_body]
pub(crate) fn conn_lists_insert(m: &mut ConnListMap, key: String, conns: Vec<usize>)
    ensures
        conn_lists(*final(m)) == conn_lists(*old(m)).insert(key@, conns@),
{
    m.insert(key, conns);
}

/// Lists of numbers by name.
pub type ListMap = DashMap<String, Vec<u64>>;

/// The lists a map of lists holds, by name.
pub uninterp spec fn list_entries(m: ListMap) -> Map<Seq<char>, Seq<u64>>;

/// `DashMap::new`: an empty map.
#[verifier::external_body]
pub(crate) fn list_new() -> (m: ListMap)
    ensures
        list_entries(m).dom() == Set::<Seq<char>>::empty(),
{
    DashMap::new()
}

/// `DashMap::get`: a copy of the list of `key`, if it has an entry.
#[verifier::external_body]
pub(crate) fn list_get(m: &ListMap, key: &str) -> (r: Option<Vec<u64>>)
    ensures
        r is None <==> !list_entries(*m).contains_key(key@),
        r matches Some(v) ==> v@ == list_entries(*m)[key@],
{
    m.get(key).map(|e| e.value().clone())
}

/// `DashMap::remove`: takes the entry of `key` out, giving back its list.
#[verifier::external_body]
pub(crate) fn list_remove(m: &mut ListMap, key: &str) -> (r: Option<Vec<u64>>)
    ensures
        list_entries(*final(m)) == list_entries(*old(m)).remove(key@),
        r is None <==> !list_entries(*old(m)).contains_key(key@),
        r matches Some(v) ==> v@ == list_entries(*old(m))[key@],
{
    m.remove(key).map(|(_, v)| v)
}

/// `DashMap::insert`: sets the entry of `key` to `ids`.
#[verifier::external_body]
pub(crate) fn list_insert(m: &mut ListMap, key: String, ids: Vec<u64>)
    ensures
        list_entries(*final(m)) == list_entries(*old(m)).insert(key@, ids@),
{
    m.insert(key, ids);
}

/// `DashMap::iter`, keeping each entry's key: every key once, in an order
/// the hashing decides.
#[verifier::external_body]
pub(crate) fn list_keys(m: &ListMap) -> (r: Vec<String>)
    ensures
        forall|a: int, b: int| 0 <= a < b < r@.len() ==> r@[a]@ != r@[b]@,
        forall|k: Seq<char>| #[trigger] list_entries(*m).contains_key(k) <==> exists|i: int| 0 <= i < r@.len() && r@[i]@ == k,
{
    m.iter().map(|e| e.key().clone()).collect()
}

/// `DashMap::new`: an empty map.
#[verifier::external_body]
pub(crate) fn pending_new() -> (m: PendingMap)
    ensures
        pending_entries(m).dom() == Set::<u64>::empty(),
{
    DashMap::new()
}

/// `DashMap::insert`: sets the entry of `k` to `v`, giving back the value
/// it replaces.
#[verifier::external_body]
pub(crate) fn pending_insert(m: &mut PendingMap, k: u64, v: PendingMessage) -> (r: Option<PendingMessage>)
    ensures
        pending_entries(*final(m)) == pending_entries(*old(m)).insert(k, v),
        r == (if pending_entries(*old(m)).contains_key(k) {
            Some(pending_entries(*old(m))[k])
        } else {
            None
        }),
{
    m.insert(k, v)
}

/// `DashMap::remove`: takes the entry of `k` out, giving back its value.
#[verifier::external_body]
pub(crate) fn pending_remove(m: &mut PendingMap, k: u64) -> (r: Option<PendingMessage>)
    ensures
        pending_entries(*final(m)) == pending_entries(*old(m)).remove(k),
        r == (if pending_entries(*old(m)).contains_key(k) {
            Some(pending_entries(*old(m))[k])
        } else {
            None
        }),
{
    m.remove(&k).map(|(_, v)| v)
}

/// `DashMap::contains_key`: whether `k` has an entry.
#[verifier::external_body]
pub(crate) fn pending_contains(m: &PendingMap, k: u64) -> (r: bool)
    ensures
        r == pending_entries(*m).contains_key(k),
{
    m.contains_key(&k)
}

/// `DashMap::len`: the number of entries.
#[verifier::external_body]
pub(crate) fn pending_len(m: &PendingMap) -> (r: usize)
    ensures
        r == pending_entries(*m).dom().len(),
{
    m.len()
}

/// `DashMap::iter`, keeping each entry's key: every key once, in an order
/// the hashing decides.
#[verifier::external_body]
pub(crate) fn pending_keys(m: &PendingMap) -> (r: Vec<u64>)
    ensures
        r@.no_duplicates(),
        forall|k: u64| r@.contains(k) <==> pending_entries(*m).contains_key(k),
{
    m.iter().map(|e| *e.key()).collect()
}

/// `DashMap::new`: an empty map.
#[verifier::external_body]
pub(crate) fn ack_new() -> (m: AckMap)
    ensures
        ack_entries(m).dom() == Set::<u64>::empty(),
{
    DashMap::new()
}

/// `DashMap::insert`: sets the entry of `k` to `v`.
#[verifier::external_body]
pub(crate) fn ack_insert(m: &mut AckMap, k: u64, v: Acknowledgment)
    ensures
        ack_entries(*final(m)) == ack_entries(*old(m)).insert(k, v),
{
    m.insert(k, v);
}

/// `DashMap::get`: a copy of the entry of `k`, if any.
#[verifier::external_body]
pub(crate) fn ack_get(m: &AckMap, k: u64) -> (r: Option<Acknowledgment>)
    ensures
        r == (if ack_entries(*m).contains_key(k) { Some(ack_entries(*m)[k]) } else { None }),
{
    m.get(&k).map(|e| e.value().duplicate())
}

/// The acknowledgement is less than an hour old at `now` (the difference
/// taken modulo 2^64).
pub open spec fn ack_recent(a: Acknowledgment, now: u64) -> bool {
    crate::collector::wrap_sub(now, a.timestamp) < 3_600_000
}

/// Whether an acknowledgement is less than an hour old at `now`.
pub fn ack_is_recent(a: &Acknowledgment, now: u64) -> (r: bool)
    ensures
        r == ack_recent(*a, now),
{
    now.wrapping_sub(a.timestamp) < 3_600_000
}

/// `DashMap::retain`: keeps the acknowledgements less than an hour old.
#[verifier::external_body]
pub(crate) fn ack_retain_recent(m: &mut AckMap, now: u64)
    ensures
        ack_entries(*final(m)) == ack_entries(*old(m)).restrict(
            ack_entries(*old(m)).dom().filter(|k: u64| ack_recent(ack_entries(*old(m))[k], now)),
        ),
{
    m.retain(|_, a| ack_is_recent(a, now))
}

} // verus!
