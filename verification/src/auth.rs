//! Access control: permissions, roles, users and API keys, the context an
//! authenticated client carries, topic pattern matching, request rate
//! limiting and signed session tokens.

use vstd::prelude::*;
use crate::assoc::{entries_map, has_key, keys_unique, lemma_key_index_unique, StrMap};
use crate::clock::{now_millis, now_secs};
use crate::crypto::{
    base64_decode, base64_decoding_of, base64_encode, base64_text_of, fingerprint, is_base64_byte,
    new_uuid_string, secret_fingerprint, sha256_digest, sha256_of,
};
use crate::text::{
    chars_equal, chars_of, ends_with, seq_ends_with, seq_starts_with, starts_with, str_equal,
    str_to_string,
};
use vstd::string::StringSliceAdditionalSpecFns;

verus! {

/// What a principal may do.
#[derive(Debug, Clone, Copy, PartialEq, Eq, Hash, Structural)]
pub enum Permission {
    /// Read messages from topics.
    Subscribe,
    /// Write messages to topics.
    Publish,
    /// Create topics.
    CreateTopic,
    /// Delete topics.
    DeleteTopic,
    /// Manage topic configuration.
    ManageTopic,
    /// View topic metrics and status.
    ViewTopic,
    /// Everything.
    Admin,
    /// Manage users and permissions.
    ManageUsers,
}

/// A set of permissions.
#[derive(Debug)]
pub struct PermissionSet {
    items: Vec<Permission>,
}

impl View for PermissionSet {
    type V = Set<Permission>;

    /// The permissions in the set.
    closed spec fn view(&self) -> Set<Permission> {
        Set::new(|p: Permission| self.items@.contains(p))
    }
}

impl PermissionSet {
    /// The empty set.
    pub fn new() -> (s: PermissionSet)
        ensures
            s.view() == Set::<Permission>::empty(),
    {
        let s = PermissionSet { items: Vec::new() };
        proof {
            assert(s.view() =~= Set::<Permission>::empty());
        }
        s
    }

    /// The set of the listed permissions.
    pub fn from_slice(ps: &[Permission]) -> (s: PermissionSet)
        ensures
            s.view() == Set::new(|p: Permission| ps@.contains(p)),
    {
        let mut s = PermissionSet::new();
        let mut i: usize = 0;
        while i < ps.len()
            invariant
                i <= ps@.len(),
                s.view() == Set::new(|p: Permission| ps@.subrange(0, i as int).contains(p)),
            decreases ps@.len() - i,
        {
            s.insert(ps[i]);
            proof {
                let a = ps@.subrange(0, i as int);
                let b = ps@.subrange(0, i + 1);
                assert forall|p: Permission| b.contains(p) <==> (a.contains(p) || p == ps@[i as int]) by {
                    if b.contains(p) {
                        let k = choose|k: int| 0 <= k < b.len() && b[k] == p;
                        if k < i {
                            assert(a[k] == p);
                        }
                    }
                    if a.contains(p) {
                        let k = choose|k: int| 0 <= k < a.len() && a[k] == p;
                        assert(b[k] == p);
                    }
                    if p == ps@[i as int] {
                        assert(b[i as int] == p);
                    }
                }
                assert(s.view() =~= Set::new(|p: Permission| b.contains(p)));
            }
            i = i + 1;
        }
        proof {
            assert(ps@.subrange(0, ps@.len() as int) =~= ps@);
        }
        s
    }

    /// Whether `p` is in the set.
    pub fn contains(&self, p: &Permission) -> (r: bool)
        ensures
            r == self.view().contains(*p),
    {
        let mut i: usize = 0;
        while i < self.items.len()
            invariant
                i <= self.items@.len(),
                forall|j: int| 0 <= j < i ==> self.items@[j] != *p,
            decreases self.items@.len() - i,
        {
            if self.items[i] == *p {
                return true;
            }
            i = i + 1;
        }
        false
    }

    /// Adds `p`; true when it was not already present.
    pub fn insert(&mut self, p: Permission) -> (fresh: bool)
        ensures
            final(self).view() == old(self).view().insert(p),
            fresh == !old(self).view().contains(p),
    {
        if self.contains(&p) {
            proof {
                assert(self.view() =~= self.view().insert(p));
            }
            false
        } else {
            self.items.push(p);
            proof {
                assert forall|q: Permission| self.items@.contains(q) <==> (old(self).items@.contains(q) || q == p) by {
                    if self.items@.contains(q) {
                        let k = choose|k: int| 0 <= k < self.items@.len() && self.items@[k] == q;
                        if k < old(self).items@.len() {
                            assert(old(self).items@[k] == q);
                        }
                    }
                    if old(self).items@.contains(q) {
                        let k = choose|k: int| 0 <= k < old(self).items@.len() && old(self).items@[k] == q;
                        assert(self.items@[k] == q);
                    }
                    if q == p {
                        assert(self.items@[old(self).items@.len() as int] == q);
                    }
                }
                assert(self.view() =~= old(self).view().insert(p));
            }
            true
        }
    }

    /// Adds every permission of `other`.
    pub fn extend(&mut self, other: &PermissionSet)
        ensures
            final(self).view() == old(self).view().union(other.view()),
    {
        let mut i: usize = 0;
        while i < other.items.len()
            invariant
                i <= other.items@.len(),
                self.view() == old(self).view().union(
                    Set::new(|p: Permission| other.items@.subrange(0, i as int).contains(p)),
                ),
            decreases other.items@.len() - i,
        {
            self.insert(other.items[i]);
            proof {
                let a = other.items@.subrange(0, i as int);
                let b = other.items@.subrange(0, i + 1);
                assert forall|p: Permission| b.contains(p) <==> (a.contains(p) || p == other.items@[i as int]) by {
                    if b.contains(p) {
                        let k = choose|k: int| 0 <= k < b.len() && b[k] == p;
                        if k < i {
                            assert(a[k] == p);
                        }
                    }
                    if a.contains(p) {
                        let k = choose|k: int| 0 <= k < a.len() && a[k] == p;
                        assert(b[k] == p);
                    }
                    if p == other.items@[i as int] {
                        assert(b[i as int] == p);
                    }
                }
                assert(self.view() =~= old(self).view().union(Set::new(|p: Permission| b.contains(p))));
            }
            i = i + 1;
        }
        proof {
            assert(other.items@.subrange(0, other.items@.len() as int) =~= other.items@);
            assert(self.view() =~= old(self).view().union(other.view()));
        }
    }

    /// A copy of the set.
    pub fn duplicate(&self) -> (r: PermissionSet)
        ensures
            r.view() == self.view(),
    {
        let mut r = PermissionSet::new();
        r.extend(self);
        proof {
            assert(r.view() =~= self.view());
        }
        r
    }
}

/// `p` has exactly one `*`, at position `k`.
pub open spec fn single_star_at(p: Seq<char>, k: int) -> bool {
    &&& 0 <= k < p.len()
    &&& p[k] == '*'
    &&& forall|j: int| 0 <= j < p.len() && j != k ==> p[j] != '*'
}

/// The topic glob rule: `*` alone matches everything; a pattern with exactly
/// one `*` matches the texts that begin with the part before it and end with
/// the part after it (the two parts may overlap in the text); any other
/// pattern matches only itself.
pub open spec fn glob_matches(p: Seq<char>, t: Seq<char>) -> bool {
    if p == seq!['*'] {
        true
    } else if exists|k: int| single_star_at(p, k) {
        let k = choose|k: int| single_star_at(p, k);
        seq_starts_with(t, p.subrange(0, k)) && seq_ends_with(t, p.subrange(k + 1, p.len() as int))
    } else {
        p == t
    }
}

/// A pattern with exactly one `*`, at `k`, matches a text exactly when the
/// text begins with the part before the `*` and ends with the part after
/// it; a pattern without `*` matches only itself.
pub proof fn lemma_glob_single_star(p: Seq<char>, t: Seq<char>, k: int)
    requires
        single_star_at(p, k),
    ensures
        glob_matches(p, t) <==> (
            k <= t.len() && t.subrange(0, k) == p.subrange(0, k)
            && p.len() - k - 1 <= t.len() && t.subrange(t.len() - (p.len() - k - 1), t.len() as int)
                == p.subrange(k + 1, p.len() as int)),
{
    if p == seq!['*'] {
        assert(k == 0);
        assert(p.subrange(0, 0) =~= Seq::<char>::empty());
        assert(t.subrange(0, 0) =~= Seq::<char>::empty());
        assert(p.subrange(1, 1) =~= Seq::<char>::empty());
        assert(t.subrange(t.len() as int, t.len() as int) =~= Seq::<char>::empty());
    } else {
        let j = choose|j: int| single_star_at(p, j);
        assert(single_star_at(p, j));
        if j != k {
            assert(p[j] == '*');
        }
        assert(j == k);
    }
}

/// A pattern without `*` matches exactly the text equal to it.
pub proof fn lemma_glob_no_star(p: Seq<char>, t: Seq<char>)
    requires
        forall|j: int| 0 <= j < p.len() ==> p[j] != '*',
    ensures
        glob_matches(p, t) <==> p == t,
{
    if p == seq!['*'] {
        assert(p[0] == '*');
    }
    if exists|k: int| single_star_at(p, k) {
        let k = choose|k: int| single_star_at(p, k);
        assert(p[k] == '*');
    }
}

/// Whether `pattern` matches `text` under the topic glob rule.
pub fn glob_match(pattern: &str, text: &str) -> (r: bool)
    ensures
        r == glob_matches(pattern@, text@),
{
    let pv = chars_of(pattern);
    let tv = chars_of(text);
    if pv.len() == 1 && pv[0] == '*' {
        proof {
            assert(pattern@ =~= seq!['*']);
        }
        return true;
    }
    proof {
        assert(pattern@ != seq!['*']) by {
            if pattern@ == seq!['*'] {
                assert(pv@.len() == 1 && pv@[0] == '*');
            }
        }
    }
    let mut first: Option<usize> = None;
    let mut more = false;
    let mut i: usize = 0;
    while i < pv.len()
        invariant
            pv@ == pattern@,
            i <= pv@.len(),
            first is None ==> forall|j: int| 0 <= j < i ==> pv@[j] != '*',
            first matches Some(k) ==> k < i && pv@[k as int] == '*' && forall|j: int| 0 <= j < k ==> pv@[j] != '*',
            !more && first is Some ==> forall|j: int| 0 <= j < i && j != first->0 ==> pv@[j] != '*',
            more ==> first is Some && exists|j: int| 0 <= j < i && j != first->0 && pv@[j] == '*',
        decreases pv@.len() - i,
    {
        if pv[i] == '*' {
            match first {
                None => {
                    first = Some(i);
                },
                Some(_) => {
                    more = true;
                },
            }
        }
        i = i + 1;
    }
    match first {
        Some(k) if !more => {
            proof {
                assert(single_star_at(pattern@, k as int));
                let c = choose|c: int| single_star_at(pattern@, c);
                assert(c == k as int);
            }
            let prefix = &pv.as_slice()[0..k];
            let suffix = &pv.as_slice()[k + 1..pv.len()];
            starts_with(tv.as_slice(), prefix) && ends_with(tv.as_slice(), suffix)
        },
        _ => {
            proof {
                assert forall|c: int| !single_star_at(pattern@, c) by {
                    if single_star_at(pattern@, c) {
                        if first is Some {
                            let j = choose|j: int| 0 <= j < i && j != first->0 && pv@[j] == '*';
                            assert(j == c || first->0 == c);
                        }
                    }
                }
            }
            chars_equal(pv.as_slice(), tv.as_slice())
        },
    }
}

/// Some pattern in the list matches the topic.
pub open spec fn any_pattern_matches(patterns: Seq<String>, topic: Seq<char>) -> bool {
    exists|i: int| 0 <= i < patterns.len() && glob_matches(patterns[i]@, topic)
}

/// Whether any of `patterns` matches `topic`.
pub fn patterns_match(patterns: &Vec<String>, topic: &str) -> (r: bool)
    ensures
        r == any_pattern_matches(patterns@, topic@),
{
    let mut i: usize = 0;
    while i < patterns.len()
        invariant
            i <= patterns@.len(),
            forall|j: int| 0 <= j < i ==> !glob_matches(patterns@[j]@, topic@),
        decreases patterns@.len() - i,
    {
        if glob_match(patterns[i].as_str(), topic) {
            return true;
        }
        i = i + 1;
    }
    false
}

/// A copy of a list of strings.
pub fn clone_strings(v: &Vec<String>) -> (r: Vec<String>)
    ensures
        r@ == v@,
{
    let mut r: Vec<String> = Vec::new();
    let mut i: usize = 0;
    while i < v.len()
        invariant
            i <= v@.len(),
            r@ == v@.subrange(0, i as int),
        decreases v@.len() - i,
    {
        r.push(v[i].clone());
        i = i + 1;
        proof {
            assert(r@ =~= v@.subrange(0, i as int));
        }
    }
    proof {
        assert(v@.subrange(0, v@.len() as int) =~= v@);
    }
    r
}

/// The list holding only the pattern `*`.
pub open spec fn all_topics_patterns(v: Seq<String>) -> bool {
    v.len() == 1 && v[0]@ == seq!['*']
}

/// A list holding only the pattern `*`.
pub fn match_all_patterns() -> (v: Vec<String>)
    ensures
        all_topics_patterns(v@),
{
    let mut v: Vec<String> = Vec::new();
    let s = str_to_string("*");
    proof {
        reveal_strlit("*");
        assert("*"@ =~= seq!['*']);
    }
    v.push(s);
    v
}

/// A role: a named bundle of permissions and topic patterns.
#[derive(Debug)]
pub struct Role {
    pub name: String,
    pub description: String,
    pub permissions: PermissionSet,
    /// Glob patterns of the topics the role may access.
    pub topic_patterns: Vec<String>,
    pub rate_limit_per_second: Option<u64>,
    pub max_message_size: Option<usize>,
    pub created_at: u64,
    pub updated_at: u64,
}

/// A role as plain values.
pub struct RoleView {
    pub name: Seq<char>,
    pub description: Seq<char>,
    pub permissions: Set<Permission>,
    pub topic_patterns: Seq<Seq<char>>,
    pub rate_limit_per_second: Option<u64>,
    pub max_message_size: Option<usize>,
    pub created_at: u64,
    pub updated_at: u64,
}

/// The characters of each string in a list.
pub open spec fn strings_view(v: Seq<String>) -> Seq<Seq<char>> {
    v.map_values(|s: String| s@)
}

impl View for Role {
    type V = RoleView;

    open spec fn view(&self) -> RoleView {
        RoleView {
            name: self.name@,
            description: self.description@,
            permissions: self.permissions@,
            topic_patterns: strings_view(self.topic_patterns@),
            rate_limit_per_second: self.rate_limit_per_second,
            max_message_size: self.max_message_size,
            created_at: self.created_at,
            updated_at: self.updated_at,
        }
    }
}

impl Role {
    /// A role created at `now` (milliseconds): access to every topic and no limits.
    pub fn new_at(name: String, description: String, permissions: PermissionSet, now: u64) -> (r: Role)
        ensures
            r.name == name,
            r.description == description,
            r.permissions.view() == permissions.view(),
            all_topics_patterns(r.topic_patterns@),
            r.rate_limit_per_second is None,
            r.max_message_size is None,
            r.created_at == now,
            r.updated_at == now,
    {
        Role {
            name,
            description,
            permissions,
            topic_patterns: match_all_patterns(),
            rate_limit_per_second: None,
            max_message_size: None,
            created_at: now,
            updated_at: now,
        }
    }

    /// A role created now: access to every topic and no limits.
    pub fn new(name: String, description: String, permissions: PermissionSet) -> (r: Role)
        ensures
            r.name == name,
            r.description == description,
            r.permissions.view() == permissions.view(),
            all_topics_patterns(r.topic_patterns@),
            r.rate_limit_per_second is None,
            r.max_message_size is None,
            r.created_at == r.updated_at,
    {
        Role::new_at(name, description, permissions, now_millis())
    }

    /// The role grants `p` directly or through `Admin`.
    pub fn has_permission(&self, p: &Permission) -> (r: bool)
        ensures
            r == (self.permissions.view().contains(*p) || self.permissions.view().contains(Permission::Admin)),
    {
        self.permissions.contains(p) || self.permissions.contains(&Permission::Admin)
    }

    /// Some pattern of the role matches `topic`.
    pub fn can_access_topic(&self, topic: &str) -> (r: bool)
        ensures
            r == any_pattern_matches(self.topic_patterns@, topic@),
    {
        patterns_match(&self.topic_patterns, topic)
    }

    /// A copy of the role.
    pub fn duplicate(&self) -> (r: Role)
        ensures
            r@ == self@,
            r.topic_patterns@ == self.topic_patterns@,
    {
        Role {
            name: self.name.clone(),
            description: self.description.clone(),
            permissions: self.permissions.duplicate(),
            topic_patterns: clone_strings(&self.topic_patterns),
            rate_limit_per_second: self.rate_limit_per_second,
            max_message_size: self.max_message_size,
            created_at: self.created_at,
            updated_at: self.updated_at,
        }
    }
}

/// What an authenticated client may do.
#[derive(Debug)]
pub struct AuthContext {
    pub user_id: String,
    pub username: String,
    pub roles: Vec<String>,
    pub permissions: PermissionSet,
    pub topic_patterns: Vec<String>,
    pub rate_limit_per_second: Option<u64>,
    pub max_message_size: Option<usize>,
    pub authenticated_at: u64,
}

impl AuthContext {
    /// The context grants `p` directly or through `Admin`.
    pub fn has_permission(&self, p: &Permission) -> (r: bool)
        ensures
            r == (self.permissions.view().contains(*p) || self.permissions.view().contains(Permission::Admin)),
    {
        self.permissions.contains(p) || self.permissions.contains(&Permission::Admin)
    }

    /// Some pattern of the context matches `topic`.
    pub fn can_access_topic(&self, topic: &str) -> (r: bool)
        ensures
            r == any_pattern_matches(self.topic_patterns@, topic@),
    {
        patterns_match(&self.topic_patterns, topic)
    }

    /// Publishing needs `Publish` (or `Admin`) and a matching topic pattern.
    pub fn can_publish_to_topic(&self, topic: &str) -> (r: bool)
        ensures
            r == ((self.permissions.view().contains(Permission::Publish)
                || self.permissions.view().contains(Permission::Admin))
                && any_pattern_matches(self.topic_patterns@, topic@)),
    {
        self.has_permission(&Permission::Publish) && self.can_access_topic(topic)
    }

    /// Subscribing needs `Subscribe` (or `Admin`) and a matching topic pattern.
    pub fn can_subscribe_to_topic(&self, topic: &str) -> (r: bool)
        ensures
            r == ((self.permissions.view().contains(Permission::Subscribe)
                || self.permissions.view().contains(Permission::Admin))
                && any_pattern_matches(self.topic_patterns@, topic@)),
    {
        self.has_permission(&Permission::Subscribe) && self.can_access_topic(topic)
    }
}

} // verus!
