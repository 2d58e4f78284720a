//! The account registry: users and roles, sign-in by API key or password,
//! the context a signed-in client carries, signed session tokens and
//! per-user request rates.

use vstd::prelude::*;
use vstd::string::StringSliceAdditionalSpecFns;
use vstd::utf8::{encode_utf8, valid_utf8};
use crate::accounts::{key_expired_at, rate_step, cleaned_at, ApiKey, ApiKeyView, JwtClaims, RateLimiter, User, UserView};
use crate::assoc::StrMap;
use crate::auth::{clone_strings, AuthContext, Permission, PermissionSet, Role};
use crate::clock::{now_millis, now_secs};
use crate::codec::{bytes_equal, concat_bytes};
use crate::crypto::{base64_decode, base64_decoding_of, base64_encode, base64_text_of, is_base64_byte, secret_fingerprint, sha256_digest, sha256_of};
use crate::text::{str_from_utf8, str_to_string, lemma_seq_lt_total, lemma_seq_lt_transitive, lemma_seq_lt_irreflexive, seq_lt, str_equal, str_less};

verus! {

/// The strings are in strictly increasing lexicographic order.
pub open spec fn strictly_sorted(v: Seq<String>) -> bool {
    forall|i: int, j: int| 0 <= i < j < v.len() ==> seq_lt(v[i]@, v[j]@)
}

/// Some string of the list holds `s`.
pub open spec fn lists(v: Seq<String>, s: Seq<char>) -> bool {
    exists|i: int| 0 <= i < v.len() && v[i]@ == s
}

/// Inserts `x` into a strictly sorted list, unless the list holds it already.
pub fn insert_sorted(v: &mut Vec<String>, x: String)
    requires
        strictly_sorted(old(v)@),
    ensures
        strictly_sorted(final(v)@),
        forall|s: Seq<char>| #[trigger] lists(final(v)@, s) <==> (lists(old(v)@, s) || s == x@),
{
    let n = v.len();
    let mut i: usize = 0;
    while i < n && str_less(v[i].as_str(), x.as_str())
        invariant
            n == v@.len(),
            *v == *old(v),
            i <= n,
            forall|j: int| 0 <= j < i ==> seq_lt(#[trigger] v@[j]@, x@),
        decreases n - i,
    {
        i = i + 1;
    }
    if i < n && str_equal(v[i].as_str(), x.as_str()) {
        proof {
            assert forall|s: Seq<char>| #[trigger] lists(v@, s) <==> (lists(old(v)@, s) || s == x@) by {
                if s == x@ {
                    assert(v@[i as int]@ == s);
                }
            }
        }
        return;
    }
    proof {
        if i < n {
            lemma_seq_lt_total(v@[i as int]@, x@);
        }
    }
    let ghost before = v@;
    v.insert(i, x);
    proof {
        let after = v@;
        assert(after =~= before.insert(i as int, x));
        assert forall|a: int, b: int| 0 <= a < b < after.len() implies seq_lt(after[a]@, after[b]@) by {
            if b < i {
                assert(after[a] == before[a] && after[b] == before[b]);
            } else if b == i {
                assert(after[a] == before[a]);
            } else if a < i {
                assert(after[a] == before[a] && after[b] == before[b - 1]);
            } else if a == i {
                assert(after[b] == before[b - 1]);
                if b - 1 > i {
                    lemma_seq_lt_transitive(x@, before[i as int]@, before[b - 1]@);
                }
            } else {
                assert(after[a] == before[a - 1] && after[b] == before[b - 1]);
            }
        }
        assert forall|s: Seq<char>| #[trigger] lists(after, s) <==> (lists(before, s) || s == x@) by {
            if lists(after, s) {
                let k = choose|k: int| 0 <= k < after.len() && after[k]@ == s;
                if k < i {
                    assert(before[k] == after[k]);
                } else if k > i {
                    assert(before[k - 1] == after[k]);
                }
            }
            if lists(before, s) {
                let k = choose|k: int| 0 <= k < before.len() && before[k]@ == s;
                if k < i {
                    assert(after[k] == before[k]);
                } else {
                    assert(after[k + 1] == before[k]);
                }
            }
            if s == x@ {
                assert(after[i as int]@ == s);
            }
        }
    }
}

/// The permissions of the defined roles among `names`.
pub open spec fn granted_permissions(names: Seq<String>, roles: Map<Seq<char>, Role>) -> Set<Permission> {
    Set::new(|p: Permission| exists|k: int| 0 <= k < names.len() && roles.contains_key(names[k]@)
        && (#[trigger] roles[names[k]@].permissions@).contains(p))
}

/// Some defined role among `names` lists the topic pattern `s`.
pub open spec fn granted_pattern(names: Seq<String>, roles: Map<Seq<char>, Role>, s: Seq<char>) -> bool {
    exists|k: int| 0 <= k < names.len() && roles.contains_key(names[k]@)
        && lists(#[trigger] roles[names[k]@].topic_patterns@, s)
}

/// The rate limit of the first defined role among `names` that has one.
pub open spec fn first_rate_limit(names: Seq<String>, roles: Map<Seq<char>, Role>) -> Option<u64>
    decreases names.len(),
{
    if names.len() == 0 {
        None
    } else {
        let earlier = first_rate_limit(names.drop_last(), roles);
        if earlier is Some {
            earlier
        } else if roles.contains_key(names.last()@) {
            roles[names.last()@].rate_limit_per_second
        } else {
            None
        }
    }
}

/// The message size limit of the first defined role among `names` that has one.
pub open spec fn first_message_size(names: Seq<String>, roles: Map<Seq<char>, Role>) -> Option<usize>
    decreases names.len(),
{
    if names.len() == 0 {
        None
    } else {
        let earlier = first_message_size(names.drop_last(), roles);
        if earlier is Some {
            earlier
        } else if roles.contains_key(names.last()@) {
            roles[names.last()@].max_message_size
        } else {
            None
        }
    }
}

/// `ctx` is the context of user `u` under the role table `roles`, signed
/// in at `now`: the union of the permissions and of the topic patterns of
/// the user's defined roles (patterns sorted, each once), and the first
/// rate and size limits found in the order the user lists the roles.
pub open spec fn context_of(ctx: AuthContext, u: User, roles: Map<Seq<char>, Role>, now: u64) -> bool {
    &&& ctx.user_id@ == u.id@
    &&& ctx.username@ == u.username@
    &&& ctx.roles@ == u.roles@
    &&& ctx.permissions@ == granted_permissions(u.roles@, roles)
    &&& strictly_sorted(ctx.topic_patterns@)
    &&& forall|s: Seq<char>| #[trigger] lists(ctx.topic_patterns@, s) <==> granted_pattern(u.roles@, roles, s)
    &&& ctx.rate_limit_per_second == first_rate_limit(u.roles@, roles)
    &&& ctx.max_message_size == first_message_size(u.roles@, roles)
    &&& ctx.authenticated_at == now
}

/// The context of `user` under the role table `roles`, signed in at `now`.
pub fn build_context_at(user: &User, roles: &StrMap<Role>, now: u64) -> (ctx: AuthContext)
    ensures
        context_of(ctx, *user, roles.view(), now),
{
    let ghost names = user.roles@;
    let ghost table = roles.view();
    let mut perms = PermissionSet::new();
    let mut patterns: Vec<String> = Vec::new();
    let mut rate: Option<u64> = None;
    let mut size: Option<usize> = None;
    let mut k: usize = 0;
    proof {
        assert(perms@ =~= granted_permissions(names.subrange(0, 0), table));
        assert(names.subrange(0, 0).len() == 0);
    }
    while k < user.roles.len()
        invariant
            names == user.roles@,
            table == roles.view(),
            k <= names.len(),
            perms@ == granted_permissions(names.subrange(0, k as int), table),
            strictly_sorted(patterns@),
            forall|s: Seq<char>| #[trigger] lists(patterns@, s) <==> granted_pattern(names.subrange(0, k as int), table, s),
            rate == first_rate_limit(names.subrange(0, k as int), table),
            size == first_message_size(names.subrange(0, k as int), table),
        decreases names.len() - k,
    {
        let ghost pre = names.subrange(0, k as int);
        let ghost next = names.subrange(0, k + 1);
        proof {
            assert(next.drop_last() =~= pre);
            assert(next.last() == names[k as int]);
        }
        match roles.get(user.roles[k].as_str()) {
            Some(role) => {
                let ghost pats_before = patterns@;
                perms.extend(&role.permissions);
                let mut j: usize = 0;
                while j < role.topic_patterns.len()
                    invariant
                        j <= role.topic_patterns@.len(),
                        strictly_sorted(patterns@),
                        forall|s: Seq<char>| #[trigger] lists(patterns@, s) <==> (lists(pats_before, s)
                            || lists(role.topic_patterns@.subrange(0, j as int), s)),
                    decreases role.topic_patterns@.len() - j,
                {
                    let ghost pj = role.topic_patterns@.subrange(0, j as int);
                    let ghost pj1 = role.topic_patterns@.subrange(0, j + 1);
                    insert_sorted(&mut patterns, role.topic_patterns[j].clone());
                    proof {
                        assert forall|s: Seq<char>| lists(pj1, s) <==> (lists(pj, s) || s == role.topic_patterns@[j as int]@) by {
                            if lists(pj1, s) {
                                let q = choose|q: int| 0 <= q < pj1.len() && pj1[q]@ == s;
                                if q < j {
                                    assert(pj[q] == pj1[q]);
                                }
                            }
                            if lists(pj, s) {
                                let q = choose|q: int| 0 <= q < pj.len() && pj[q]@ == s;
                                assert(pj1[q] == pj[q]);
                            }
                            if s == role.topic_patterns@[j as int]@ {
                                assert(pj1[j as int]@ == s);
                            }
                        }
                    }
                    j = j + 1;
                }
                if rate.is_none() {
                    rate = role.rate_limit_per_second;
                }
                if size.is_none() {
                    size = role.max_message_size;
                }
                proof {
                    assert(role.topic_patterns@.subrange(0, j as int) =~= role.topic_patterns@);
                    assert forall|p: Permission| #[trigger] perms@.contains(p) <==> granted_permissions(next, table).contains(p) by {
                        if granted_permissions(pre, table).contains(p) {
                            let q = choose|q: int| 0 <= q < pre.len() && table.contains_key(pre[q]@)
                                && table[pre[q]@].permissions@.contains(p);
                            assert(next[q] == pre[q]);
                        }
                        if role.permissions@.contains(p) {
                            assert(next[k as int] == names[k as int]);
                            assert(table[next[k as int]@].permissions@.contains(p));
                        }
                        if granted_permissions(next, table).contains(p) {
                            let q = choose|q: int| 0 <= q < next.len() && table.contains_key(next[q]@)
                                && table[next[q]@].permissions@.contains(p);
                            if q < k {
                                assert(pre[q] == next[q]);
                            }
                        }
                    }
                    assert(perms@ =~= granted_permissions(next, table));
                    assert forall|s: Seq<char>| #[trigger] lists(patterns@, s) <==> granted_pattern(next, table, s) by {
                        if granted_pattern(pre, table, s) {
                            let q = choose|q: int| 0 <= q < pre.len() && table.contains_key(pre[q]@)
                                && lists(table[pre[q]@].topic_patterns@, s);
                            assert(next[q] == pre[q]);
                        }
                        if lists(role.topic_patterns@, s) {
                            assert(next[k as int] == names[k as int]);
                            assert(lists(table[next[k as int]@].topic_patterns@, s));
                        }
                        if granted_pattern(next, table, s) {
                            let q = choose|q: int| 0 <= q < next.len() && table.contains_key(next[q]@)
                                && lists(table[next[q]@].topic_patterns@, s);
                            if q < k {
                                assert(pre[q] == next[q]);
                            }
                        }
                    }
                }
            },
            None => {
                proof {
                    assert forall|p: Permission| #[trigger] perms@.contains(p) <==> granted_permissions(next, table).contains(p) by {
                        if granted_permissions(pre, table).contains(p) {
                            let q = choose|q: int| 0 <= q < pre.len() && table.contains_key(pre[q]@)
                                && table[pre[q]@].permissions@.contains(p);
                            assert(next[q] == pre[q]);
                        }
                        if granted_permissions(next, table).contains(p) {
                            let q = choose|q: int| 0 <= q < next.len() && table.contains_key(next[q]@)
                                && table[next[q]@].permissions@.contains(p);
                            if q < k {
                                assert(pre[q] == next[q]);
                            }
                        }
                    }
                    assert(perms@ =~= granted_permissions(next, table));
                    assert forall|s: Seq<char>| #[trigger] lists(patterns@, s) <==> granted_pattern(next, table, s) by {
                        if granted_pattern(pre, table, s) {
                            let q = choose|q: int| 0 <= q < pre.len() && table.contains_key(pre[q]@)
                                && lists(table[pre[q]@].topic_patterns@, s);
                            assert(next[q] == pre[q]);
                        }
                        if granted_pattern(next, table, s) {
                            let q = choose|q: int| 0 <= q < next.len() && table.contains_key(next[q]@)
                                && lists(table[next[q]@].topic_patterns@, s);
                            if q < k {
                                assert(pre[q] == next[q]);
                            }
                        }
                    }
                }
            },
        }
        k = k + 1;
    }
    proof {
        assert(names.subrange(0, names.len() as int) =~= names);
    }
    AuthContext {
        user_id: user.id.clone(),
        username: user.username.clone(),
        roles: clone_strings(&user.roles),
        permissions: perms,
        topic_patterns: patterns,
        rate_limit_per_second: rate,
        max_message_size: size,
        authenticated_at: now,
    }
}

/// All eight permissions.
pub open spec fn all_permissions() -> Set<Permission> {
    set![
        Permission::Subscribe,
        Permission::Publish,
        Permission::CreateTopic,
        Permission::DeleteTopic,
        Permission::ManageTopic,
        Permission::ViewTopic,
        Permission::Admin,
        Permission::ManageUsers,
    ]
}

/// A role named `name` with the given description and permissions, access to
/// every topic, and the given limits.
pub open spec fn role_is(
    r: Role,
    name: Seq<char>,
    description: Seq<char>,
    perms: Set<Permission>,
    rate: Option<u64>,
    size: Option<usize>,
) -> bool {
    &&& r.name@ == name
    &&& r.description@ == description
    &&& r.permissions@ == perms
    &&& crate::auth::all_topics_patterns(r.topic_patterns@)
    &&& r.rate_limit_per_second == rate
    &&& r.max_message_size == size
}

/// The four built-in roles: `admin` (everything), `producer` (publish and
/// view), `consumer` (subscribe and view) and `user` (publish, subscribe and
/// view; at most 100 requests a second and messages up to 1 MiB).
pub open spec fn default_role_table(m: Map<Seq<char>, Role>) -> bool {
    &&& m.dom() == set!["admin"@, "producer"@, "consumer"@, "user"@]
    &&& role_is(m["admin"@], "admin"@, "Full administrative access"@, all_permissions(), None, None)
    &&& role_is(m["producer"@], "producer"@, "Can publish messages to topics"@,
        set![Permission::Publish, Permission::ViewTopic], None, None)
    &&& role_is(m["consumer"@], "consumer"@, "Can subscribe to topics and receive messages"@,
        set![Permission::Subscribe, Permission::ViewTopic], None, None)
    &&& role_is(m["user"@], "user"@, "Basic user with publish/subscribe access"@,
        set![Permission::Subscribe, Permission::Publish, Permission::ViewTopic], Some(100), Some(1048576))
}

/// The registry of users and roles, the token secret and the rate windows.
#[derive(Debug)]
pub struct AuthManager {
    users: StrMap<User>,
    roles: StrMap<Role>,
    rate_limiter: RateLimiter,
    jwt_secret: String,
    jwt_expiry_seconds: u64,
}

impl AuthManager {
    /// The users, by id.
    pub closed spec fn users_view(&self) -> Map<Seq<char>, User> {
        self.users.view()
    }

    /// The users with their ids, in the order they were created.
    pub closed spec fn user_entries(&self) -> Seq<(String, User)> {
        self.users.entries()
    }

    /// The roles, by name.
    pub closed spec fn roles_view(&self) -> Map<Seq<char>, Role> {
        self.roles.view()
    }

    /// The roles with their names, in the order they were created.
    pub closed spec fn role_entries(&self) -> Seq<(String, Role)> {
        self.roles.entries()
    }

    /// The recent request times of each user.
    pub closed spec fn rate_windows(&self) -> Map<Seq<char>, Seq<u64>> {
        self.rate_limiter.view()
    }

    /// The token signing secret.
    pub closed spec fn secret(&self) -> Seq<char> {
        self.jwt_secret@
    }

    /// How long a session token stays valid, in seconds.
    pub closed spec fn expiry_seconds(&self) -> u64 {
        self.jwt_expiry_seconds
    }

    /// The user entries hold each id once and denote the user map; likewise
    /// for roles.
    pub fn note_tables(&self)
        ensures
            crate::assoc::keys_unique(self.user_entries()),
            self.users_view() == crate::assoc::entries_map(self.user_entries()),
            crate::assoc::keys_unique(self.role_entries()),
            self.roles_view() == crate::assoc::entries_map(self.role_entries()),
    {
        self.users.note_entries();
        self.roles.note_entries();
    }

    /// A registry with no users, the four built-in roles created at `now`,
    /// the given token secret and a token lifetime of one day.
    pub fn new_at(jwt_secret: String, now: u64) -> (m: AuthManager)
        ensures
            m.users_view() == Map::<Seq<char>, User>::empty(),
            m.user_entries().len() == 0,
            default_role_table(m.roles_view()),
            m.rate_windows() == Map::<Seq<char>, Seq<u64>>::empty(),
            m.secret() == jwt_secret@,
            m.expiry_seconds() == 86400,
    {
        let mut roles: StrMap<Role> = StrMap::new();

        let mut admin = PermissionSet::new();
        admin.insert(Permission::Subscribe);
        admin.insert(Permission::Publish);
        admin.insert(Permission::CreateTopic);
        admin.insert(Permission::DeleteTopic);
        admin.insert(Permission::ManageTopic);
        admin.insert(Permission::ViewTopic);
        admin.insert(Permission::Admin);
        admin.insert(Permission::ManageUsers);
        proof {
            assert(admin@ =~= all_permissions());
        }
        roles.insert(
            str_to_string("admin"),
            Role::new_at(str_to_string("admin"), str_to_string("Full administrative access"), admin, now),
        );

        let mut producer = PermissionSet::new();
        producer.insert(Permission::Publish);
        producer.insert(Permission::ViewTopic);
        proof {
            assert(producer@ =~= set![Permission::Publish, Permission::ViewTopic]);
        }
        roles.insert(
            str_to_string("producer"),
            Role::new_at(str_to_string("producer"), str_to_string("Can publish messages to topics"), producer, now),
        );

        let mut consumer = PermissionSet::new();
        consumer.insert(Permission::Subscribe);
        consumer.insert(Permission::ViewTopic);
        proof {
            assert(consumer@ =~= set![Permission::Subscribe, Permission::ViewTopic]);
        }
        roles.insert(
            str_to_string("consumer"),
            Role::new_at(
                str_to_string("consumer"),
                str_to_string("Can subscribe to topics and receive messages"),
                consumer,
                now,
            ),
        );

        let mut basic = PermissionSet::new();
        basic.insert(Permission::Subscribe);
        basic.insert(Permission::Publish);
        basic.insert(Permission::ViewTopic);
        proof {
            assert(basic@ =~= set![Permission::Subscribe, Permission::Publish, Permission::ViewTopic]);
        }
        let mut user_role = Role::new_at(
            str_to_string("user"),
            str_to_string("Basic user with publish/subscribe access"),
            basic,
            now,
        );
        user_role.rate_limit_per_second = Some(100);
        user_role.max_message_size = Some(1024 * 1024);
        roles.insert(str_to_string("user"), user_role);

        proof {
            reveal_strlit("admin");
            reveal_strlit("producer");
            reveal_strlit("consumer");
            reveal_strlit("user");
            assert("admin"@.len() == 5 && "producer"@.len() == 8 && "consumer"@.len() == 8 && "user"@.len() == 4);
            assert("producer"@[0] == 'p' && "consumer"@[0] == 'c');
            assert("admin"@ != "producer"@ && "admin"@ != "consumer"@ && "admin"@ != "user"@);
            assert("producer"@ != "consumer"@ && "producer"@ != "user"@ && "consumer"@ != "user"@);
            assert(roles.view().dom() =~= set!["admin"@, "producer"@, "consumer"@, "user"@]);
        }
        let m = AuthManager {
            users: StrMap::new(),
            roles,
            rate_limiter: RateLimiter::new(),
            jwt_secret,
            jwt_expiry_seconds: 24 * 60 * 60,
        };
        m
    }

    /// A registry as `new_at`, with the roles stamped by the clock.
    pub fn new(jwt_secret: String) -> (m: AuthManager)
        ensures
            m.users_view() == Map::<Seq<char>, User>::empty(),
            m.user_entries().len() == 0,
            default_role_table(m.roles_view()),
            m.rate_windows() == Map::<Seq<char>, Seq<u64>>::empty(),
            m.secret() == jwt_secret@,
            m.expiry_seconds() == 86400,
    {
        AuthManager::new_at(jwt_secret, now_millis())
    }
}

/// The key accepts secret `key` at `now`: it is enabled, not expired, and
/// its fingerprint matches.
pub open spec fn key_opens(k: ApiKeyView, key: Seq<u8>, now: u64) -> bool {
    k.enabled && !key_expired_at(k, now) && secret_fingerprint(key) == k.key_hash
}

/// The user is enabled and one of its keys accepts `key` at `now`.
pub open spec fn user_opens_with_key(u: User, key: Seq<u8>, now: u64) -> bool {
    u.enabled && exists|j: int| 0 <= j < u.api_keys@.len() && key_opens(#[trigger] u.api_keys@[j]@, key, now)
}

/// The user is enabled, has this name, and `password` matches its stored fingerprint.
pub open spec fn user_opens_with_password(u: User, username: Seq<char>, password: Seq<u8>) -> bool {
    u.enabled && u.username@ == username && u@.password_hash == Some(secret_fingerprint(password))
}

/// The outcome of signing in with API key `key` at `now`: the context of the
/// first user, in creation order, that the key opens, or `None` when it opens none.
pub open spec fn api_key_sign_in(
    entries: Seq<(String, User)>,
    roles: Map<Seq<char>, Role>,
    key: Seq<u8>,
    now: u64,
    r: Option<AuthContext>,
) -> bool {
    match r {
        None => forall|i: int| 0 <= i < entries.len() ==> !user_opens_with_key(#[trigger] entries[i].1, key, now),
        Some(ctx) => exists|i: int| {
            &&& 0 <= i < entries.len()
            &&& user_opens_with_key(#[trigger] entries[i].1, key, now)
            &&& forall|j: int| 0 <= j < i ==> !user_opens_with_key(#[trigger] entries[j].1, key, now)
            &&& context_of(ctx, entries[i].1, roles, now)
        },
    }
}

/// The outcome of signing in with a user name and password at `now`: the
/// context of the first user, in creation order, that they open.
pub open spec fn password_sign_in(
    entries: Seq<(String, User)>,
    roles: Map<Seq<char>, Role>,
    username: Seq<char>,
    password: Seq<u8>,
    now: u64,
    r: Option<AuthContext>,
) -> bool {
    match r {
        None => forall|i: int| 0 <= i < entries.len() ==> !user_opens_with_password(#[trigger] entries[i].1, username, password),
        Some(ctx) => exists|i: int| {
            &&& 0 <= i < entries.len()
            &&& user_opens_with_password(#[trigger] entries[i].1, username, password)
            &&& forall|j: int| 0 <= j < i ==> !user_opens_with_password(#[trigger] entries[j].1, username, password)
            &&& context_of(ctx, entries[i].1, roles, now)
        },
    }
}

/// Whether some key of `u` accepts `key` at `now` (and `u` is enabled).
fn opens_with_key(u: &User, key: &str, now: u64) -> (r: bool)
    ensures
        r == user_opens_with_key(*u, key.spec_bytes(), now),
{
    if !u.enabled {
        return false;
    }
    let mut j: usize = 0;
    while j < u.api_keys.len()
        invariant
            u.enabled,
            j <= u.api_keys@.len(),
            forall|q: int| 0 <= q < j ==> !key_opens(#[trigger] u.api_keys@[q]@, key.spec_bytes(), now),
        decreases u.api_keys@.len() - j,
    {
        let k = &u.api_keys[j];
        if k.enabled && !k.is_expired_at(now) && k.verify_key(key) {
            return true;
        }
        j = j + 1;
    }
    false
}

/// The session token for claims text `json` under `secret`: the base64 text
/// of the claims, a dot, and the base64 text of the SHA-256 digest of the
/// claims followed by the secret.
pub open spec fn token_of(json: Seq<u8>, secret: Seq<u8>) -> Seq<u8> {
    base64_text_of(json) + seq![46u8] + base64_text_of(sha256_of(json + secret))
}

/// `t` holds exactly one dot, at `d`.
pub open spec fn single_dot_at(t: Seq<u8>, d: int) -> bool {
    &&& 0 <= d < t.len()
    &&& t[d] == 46
    &&& forall|i: int| 0 <= i < t.len() && i != d ==> t[i] != 46
}

/// The claims text a token carries, when it is well formed and signed with
/// `secret`: exactly one dot; before it, base64 text decoding to valid UTF-8;
/// after it, the signature of that text.
pub open spec fn token_payload(token: Seq<u8>, secret: Seq<u8>) -> Option<Seq<u8>> {
    if exists|d: int| single_dot_at(token, d) {
        let d = choose|d: int| single_dot_at(token, d);
        match base64_decoding_of(token.subrange(0, d)) {
            Some(json) => if valid_utf8(json) && token.subrange(d + 1, token.len() as int)
                == base64_text_of(sha256_of(json + secret)) {
                Some(json)
            } else {
                None
            },
            None => None,
        }
    } else {
        None
    }
}

/// The bytes of an optional byte vector.
pub open spec fn opt_bytes(v: Option<Vec<u8>>) -> Option<Seq<u8>> {
    match v {
        Some(b) => Some(b@),
        None => None,
    }
}

impl AuthManager {
    /// The bytes of the token signing secret.
    pub open spec fn secret_bytes(&self) -> Seq<u8> {
        encode_utf8(self.secret())
    }

    /// The context of `user` under the current roles, signed in at `now`.
    pub fn build_auth_context_at(&self, user: &User, now: u64) -> (ctx: AuthContext)
        ensures
            context_of(ctx, *user, self.roles_view(), now),
    {
        build_context_at(user, &self.roles, now)
    }

    /// Signs in with an API key at `now` (milliseconds): the context of the
    /// first enabled user, in creation order, with an enabled, unexpired key
    /// whose fingerprint matches.
    pub fn authenticate_api_key_at(&self, api_key: &str, now: u64) -> (r: Option<AuthContext>)
        ensures
            api_key_sign_in(self.user_entries(), self.roles_view(), api_key.spec_bytes(), now, r),
    {
        let n = self.users.len();
        let mut i: usize = 0;
        while i < n
            invariant
                n == self.user_entries().len(),
                i <= n,
                forall|q: int| 0 <= q < i ==> !user_opens_with_key(#[trigger] self.user_entries()[q].1, api_key.spec_bytes(), now),
            decreases n - i,
        {
            let e = self.users.entry_at(i);
            if opens_with_key(&e.1, api_key, now) {
                let ctx = self.build_auth_context_at(&e.1, now);
                proof {
                    assert(user_opens_with_key(self.user_entries()[i as int].1, api_key.spec_bytes(), now));
                }
                return Some(ctx);
            }
            i = i + 1;
        }
        None
    }

    /// Signs in with an API key by the clock (see `authenticate_api_key_at`).
    pub fn authenticate_api_key(&self, api_key: &str) -> (r: Option<AuthContext>)
        ensures
            exists|now: u64| #[trigger] api_key_sign_in(self.user_entries(), self.roles_view(), api_key.spec_bytes(), now, r),
    {
        self.authenticate_api_key_at(api_key, now_millis())
    }

    /// Signs in with a user name and password at `now`: the context of the
    /// first enabled user, in creation order, with that name and password.
    pub fn authenticate_password_at(&self, username: &str, password: &str, now: u64) -> (r: Option<AuthContext>)
        ensures
            password_sign_in(self.user_entries(), self.roles_view(), username@, password.spec_bytes(), now, r),
    {
        let n = self.users.len();
        let mut i: usize = 0;
        while i < n
            invariant
                n == self.user_entries().len(),
                i <= n,
                forall|q: int| 0 <= q < i ==> !user_opens_with_password(#[trigger] self.user_entries()[q].1, username@, password.spec_bytes()),
            decreases n - i,
        {
            let e = self.users.entry_at(i);
            let u = &e.1;
            if u.enabled && str_equal(u.username.as_str(), username) && u.verify_password(password) {
                let ctx = self.build_auth_context_at(u, now);
                proof {
                    assert(user_opens_with_password(self.user_entries()[i as int].1, username@, password.spec_bytes()));
                }
                return Some(ctx);
            }
            i = i + 1;
        }
        None
    }

    /// Signs in with a user name and password by the clock.
    pub fn authenticate_password(&self, username: &str, password: &str) -> (r: Option<AuthContext>)
        ensures
            exists|now: u64| #[trigger] password_sign_in(self.user_entries(), self.roles_view(), username@, password.spec_bytes(), now, r),
    {
        self.authenticate_password_at(username, password, now_millis())
    }

    /// The session claims for `user` issued at `now` (seconds): subject and
    /// name of the user, its roles, issuer `blipmq`, expiring one token
    /// lifetime later.
    pub fn claims_at(&self, user: &User, now: u64) -> (c: JwtClaims)
        requires
            now + self.expiry_seconds() <= u64::MAX,
        ensures
            c.sub@ == user.id@,
            c.username@ == user.username@,
            c.roles@ == user.roles@,
            c.exp == now + self.expiry_seconds(),
            c.iat == now,
            c.iss@ == "blipmq"@,
    {
        JwtClaims {
            sub: user.id.clone(),
            username: user.username.clone(),
            roles: clone_strings(&user.roles),
            exp: now + self.jwt_expiry_seconds,
            iat: now,
            iss: str_to_string("blipmq"),
        }
    }

    /// How long a session token stays valid, in seconds.
    pub fn token_lifetime_secs(&self) -> (n: u64)
        ensures
            n == self.expiry_seconds(),
    {
        self.jwt_expiry_seconds
    }

    /// The session token for the claims text `claims_json`. Opening the
    /// token with this registry's secret gives the claims text back.
    pub fn sign_token(&self, claims_json: &[u8]) -> (t: Vec<u8>)
        ensures
            t@ == token_of(claims_json@, self.secret_bytes()),
            valid_utf8(claims_json@) ==> token_payload(t@, self.secret_bytes()) == Some(claims_json@),
    {
        let head = base64_encode(claims_json);
        let signed = concat_bytes(claims_json, self.jwt_secret.as_str().as_bytes());
        let digest = sha256_digest(signed.as_slice());
        let sig = base64_encode(digest.as_slice());
        let mut t = head.clone();
        t.push(46u8);
        let t = concat_bytes(t.as_slice(), sig.as_slice());
        proof {
            let d = head@.len() as int;
            assert(t@ =~= token_of(claims_json@, self.secret_bytes()));
            assert forall|i: int| 0 <= i < t@.len() && i != d implies t@[i] != 46 by {
                if i < d {
                    assert(t@[i] == head@[i]);
                    assert(is_base64_byte(head@[i]));
                } else {
                    assert(t@[i] == sig@[i - d - 1]);
                    assert(is_base64_byte(sig@[i - d - 1]));
                }
            }
            assert(single_dot_at(t@, d));
            let c = choose|c: int| single_dot_at(t@, c);
            assert(c == d);
            assert(t@.subrange(0, d) =~= head@);
            assert(t@.subrange(d + 1, t@.len() as int) =~= sig@);
        }
        t
    }

    /// The claims text a session token carries, when the token is well formed
    /// and signed with this registry's secret.
    pub fn open_token(&self, token: &[u8]) -> (r: Option<Vec<u8>>)
        ensures
            opt_bytes(r) == token_payload(token@, self.secret_bytes()),
    {
        let n = token.len();
        let mut dots: usize = 0;
        let mut first: usize = 0;
        let mut i: usize = 0;
        while i < n
            invariant
                n == token@.len(),
                i <= n,
                dots <= 2,
                dots == 0 ==> forall|j: int| 0 <= j < i ==> token@[j] != 46,
                dots == 1 ==> first < i && token@[first as int] == 46
                    && forall|j: int| 0 <= j < i && j != first ==> token@[j] != 46,
                dots == 2 ==> forall|d: int| !single_dot_at(token@, d),
            decreases n - i,
        {
            if token[i] == 46u8 {
                if dots == 0 {
                    first = i;
                    dots = 1;
                } else if dots == 1 {
                    proof {
                        assert forall|d: int| !single_dot_at(token@, d) by {
                            if single_dot_at(token@, d) {
                                assert(d == first as int || d == i as int);
                            }
                        }
                    }
                    dots = 2;
                }
            }
            i = i + 1;
        }
        if dots != 1 {
            proof {
                if dots == 0 {
                    assert forall|d: int| !single_dot_at(token@, d) by {
                        if single_dot_at(token@, d) {
                            assert(token@[d] == 46);
                        }
                    }
                }
            }
            return None;
        }
        proof {
            assert(single_dot_at(token@, first as int));
            let c = choose|c: int| single_dot_at(token@, c);
            assert(c == first as int);
        }
        let head = &token[0..first];
        let sig = &token[first + 1..n];
        proof {
            assert(head@ =~= token@.subrange(0, first as int));
            assert(sig@ =~= token@.subrange(first + 1, n as int));
        }
        match base64_decode(head) {
            None => None,
            Some(json) => {
                if str_from_utf8(json.as_slice()).is_err() {
                    return None;
                }
                let signed = concat_bytes(json.as_slice(), self.jwt_secret.as_str().as_bytes());
                let digest = sha256_digest(signed.as_slice());
                let expected = base64_encode(digest.as_slice());
                if bytes_equal(expected.as_slice(), sig) {
                    Some(json)
                } else {
                    None
                }
            },
        }
    }

    /// The context for verified token claims with subject `claims.sub`, at
    /// `now_secs` (seconds) and signed in at `now_ms`: `None` when the claims
    /// have expired, or name no user or a disabled one.
    pub fn context_for_claims_at(&self, claims: &JwtClaims, now_secs: u64, now_ms: u64) -> (r: Option<AuthContext>)
        ensures
            claims_context(self.users_view(), self.roles_view(), *claims, now_secs, now_ms, r),
    {
        if claims.exp <= now_secs {
            return None;
        }
        match self.users.get(claims.sub.as_str()) {
            Some(u) => {
                if u.enabled {
                    Some(self.build_auth_context_at(u, now_ms))
                } else {
                    None
                }
            },
            None => None,
        }
    }

    /// The context for verified token claims, by the clock.
    pub fn context_for_claims(&self, claims: &JwtClaims) -> (r: Option<AuthContext>)
        ensures
            exists|now_secs: u64, now_ms: u64| #[trigger] claims_context(self.users_view(), self.roles_view(), *claims, now_secs, now_ms, r),
            r is Some ==> self.users_view().contains_key(claims.sub@) && self.users_view()[claims.sub@].enabled,
            !self.users_view().contains_key(claims.sub@) ==> r is None,
    {
        let now_secs = now_secs();
        let now_ms = now_millis();
        let r = self.context_for_claims_at(claims, now_secs, now_ms);
        proof {
            assert(claims_context(self.users_view(), self.roles_view(), *claims, now_secs, now_ms, r));
        }
        r
    }

}

/// `r` is what verified token claims give at `now_secs` (seconds), signed
/// in at `now_ms`: nothing once the claims have expired or when the subject
/// is not an enabled user; otherwise that user's context.
pub open spec fn claims_context(
    users: Map<Seq<char>, User>,
    roles: Map<Seq<char>, Role>,
    claims: JwtClaims,
    now_secs: u64,
    now_ms: u64,
    r: Option<AuthContext>,
) -> bool {
    &&& r is Some <==> (claims.exp > now_secs && users.contains_key(claims.sub@) && users[claims.sub@].enabled)
    &&& r matches Some(ctx) ==> context_of(ctx, users[claims.sub@], roles, now_ms)
}

/// A user as stored on creation: its roles, or `user` alone when it lists none.
pub open spec fn stored_user(u: UserView) -> UserView {
    if u.roles.len() == 0 {
        UserView { roles: seq!["user"@], ..u }
    } else {
        u
    }
}

impl AuthManager {
    /// Admits one request of `ctx`'s user at `now` under the context's rate
    /// limit; a context without a limit is always admitted.
    pub fn check_rate_limit_at(&mut self, ctx: &AuthContext, now: u64) -> (ok: bool)
        ensures
            match ctx.rate_limit_per_second {
                Some(limit) => rate_step(old(self).rate_windows(), final(self).rate_windows(), ctx.user_id@, limit, now, ok),
                None => ok && final(self).rate_windows() == old(self).rate_windows(),
            },
            final(self).users_view() == old(self).users_view(),
            final(self).user_entries() == old(self).user_entries(),
            final(self).roles_view() == old(self).roles_view(),
            final(self).role_entries() == old(self).role_entries(),
            final(self).secret() == old(self).secret(),
            final(self).expiry_seconds() == old(self).expiry_seconds(),
    {
        match ctx.rate_limit_per_second {
            Some(limit) => self.rate_limiter.check_rate_limit_at(ctx.user_id.as_str(), limit, now),
            None => true,
        }
    }

    /// Admits one request of `ctx`'s user by the clock.
    pub fn check_rate_limit(&mut self, ctx: &AuthContext) -> (ok: bool)
        ensures
            ctx.rate_limit_per_second is None ==> ok && final(self).rate_windows() == old(self).rate_windows(),
            ctx.rate_limit_per_second matches Some(limit) ==> exists|now: u64|
                #[trigger] rate_step(old(self).rate_windows(), final(self).rate_windows(), ctx.user_id@, limit, now, ok),
            final(self).users_view() == old(self).users_view(),
            final(self).user_entries() == old(self).user_entries(),
            final(self).roles_view() == old(self).roles_view(),
            final(self).role_entries() == old(self).role_entries(),
            final(self).secret() == old(self).secret(),
            final(self).expiry_seconds() == old(self).expiry_seconds(),
    {
        self.check_rate_limit_at(ctx, now_millis())
    }

    /// Registers `user` under its id; a user listing no roles gets the role
    /// `user`. Refused when the id is taken.
    pub fn create_user(&mut self, user: User) -> (r: Result<(), String>)
        ensures
            old(self).users_view().contains_key(user.id@) ==> {
                &&& r matches Err(e) && e@ == "User already exists"@
                &&& final(self).users_view() == old(self).users_view()
                &&& final(self).user_entries() == old(self).user_entries()
            },
            !old(self).users_view().contains_key(user.id@) ==> {
                &&& r is Ok
                &&& final(self).users_view() == old(self).users_view().insert(user.id@, final(self).users_view()[user.id@])
                &&& final(self).users_view()[user.id@]@ == stored_user(user@)
                &&& final(self).users_view()[user.id@].id == user.id
                &&& final(self).user_entries().len() == old(self).user_entries().len() + 1
                &&& final(self).user_entries().drop_last() == old(self).user_entries()
            },
            final(self).roles_view() == old(self).roles_view(),
            final(self).role_entries() == old(self).role_entries(),
            final(self).rate_windows() == old(self).rate_windows(),
            final(self).secret() == old(self).secret(),
            final(self).expiry_seconds() == old(self).expiry_seconds(),
    {
        if self.users.contains_key(user.id.as_str()) {
            return Err(str_to_string("User already exists"));
        }
        let ghost orig = user;
        let mut user = user;
        if user.roles.len() == 0 {
            user.roles.push(str_to_string("user"));
            proof {
                assert(crate::auth::strings_view(user.roles@) =~= seq!["user"@]);
                assert(crate::accounts::keys_view(user.api_keys@) == crate::accounts::keys_view(orig.api_keys@));
            }
        }
        proof {
            assert(user@ == stored_user(orig@));
        }
        let id = user.id.clone();
        let ghost stored = user;
        self.users.insert(id, user);
        proof {
            assert(self.users_view()[stored.id@] == stored);
            assert(self.users_view() =~= old(self).users_view().insert(stored.id@, stored));
            assert(self.user_entries().drop_last() =~= old(self).user_entries());
        }
        Ok(())
    }
}

/// The view of each stored user, in order.
pub open spec fn entry_users(entries: Seq<(String, User)>) -> Seq<UserView> {
    entries.map_values(|e: (String, User)| e.1@)
}

/// The view of each stored role, in order.
pub open spec fn entry_roles(entries: Seq<(String, Role)>) -> Seq<crate::auth::RoleView> {
    entries.map_values(|e: (String, Role)| e.1@)
}

impl AuthManager {
    /// Replaces the user stored under `user_id`. Refused when there is none.
    pub fn update_user(&mut self, user_id: &str, updated_user: User) -> (r: Result<(), String>)
        ensures
            old(self).users_view().contains_key(user_id@) ==> {
                &&& r is Ok
                &&& final(self).users_view() == old(self).users_view().insert(user_id@, updated_user)
                &&& final(self).user_entries().len() == old(self).user_entries().len()
            },
            !old(self).users_view().contains_key(user_id@) ==> {
                &&& r matches Err(e) && e@ == "User not found"@
                &&& final(self).users_view() == old(self).users_view()
                &&& final(self).user_entries() == old(self).user_entries()
            },
            final(self).roles_view() == old(self).roles_view(),
            final(self).role_entries() == old(self).role_entries(),
            final(self).rate_windows() == old(self).rate_windows(),
            final(self).secret() == old(self).secret(),
            final(self).expiry_seconds() == old(self).expiry_seconds(),
    {
        if self.users.contains_key(user_id) {
            self.users.insert(str_to_string(user_id), updated_user);
            Ok(())
        } else {
            Err(str_to_string("User not found"))
        }
    }

    /// Removes the user stored under `user_id`. Refused when there is none.
    pub fn delete_user(&mut self, user_id: &str) -> (r: Result<(), String>)
        ensures
            old(self).users_view().contains_key(user_id@) ==> r is Ok,
            !old(self).users_view().contains_key(user_id@) ==> (r matches Err(e) && e@ == "User not found"@),
            final(self).users_view() == old(self).users_view().remove(user_id@),
            !old(self).users_view().contains_key(user_id@) ==> final(self).user_entries() == old(self).user_entries(),
            final(self).roles_view() == old(self).roles_view(),
            final(self).role_entries() == old(self).role_entries(),
            final(self).rate_windows() == old(self).rate_windows(),
            final(self).secret() == old(self).secret(),
            final(self).expiry_seconds() == old(self).expiry_seconds(),
    {
        match self.users.remove(user_id) {
            Some(_) => Ok(()),
            None => Err(str_to_string("User not found")),
        }
    }

    /// A copy of the user stored under `user_id`.
    pub fn get_user(&self, user_id: &str) -> (r: Option<User>)
        ensures
            r is Some <==> self.users_view().contains_key(user_id@),
            r matches Some(u) ==> u@ == self.users_view()[user_id@]@,
    {
        match self.users.get(user_id) {
            Some(u) => Some(u.duplicate()),
            None => None,
        }
    }

    /// Copies of all users, in creation order.
    pub fn list_users(&self) -> (r: Vec<User>)
        ensures
            r@.map_values(|u: User| u@) == entry_users(self.user_entries()),
    {
        let n = self.users.len();
        let mut r: Vec<User> = Vec::new();
        let mut i: usize = 0;
        while i < n
            invariant
                n == self.user_entries().len(),
                i <= n,
                r@.len() == i,
                forall|j: int| 0 <= j < i ==> #[trigger] r@[j]@ == self.user_entries()[j].1@,
            decreases n - i,
        {
            let e = self.users.entry_at(i);
            r.push(e.1.duplicate());
            i = i + 1;
        }
        proof {
            assert(r@.map_values(|u: User| u@) =~= entry_users(self.user_entries()));
        }
        r
    }

    /// Registers `role` under its name. Refused when the name is taken.
    pub fn create_role(&mut self, role: Role) -> (r: Result<(), String>)
        ensures
            old(self).roles_view().contains_key(role.name@) ==> {
                &&& r matches Err(e) && e@ == "Role already exists"@
                &&& final(self).roles_view() == old(self).roles_view()
                &&& final(self).role_entries() == old(self).role_entries()
            },
            !old(self).roles_view().contains_key(role.name@) ==> {
                &&& r is Ok
                &&& final(self).roles_view() == old(self).roles_view().insert(role.name@, role)
                &&& final(self).role_entries() == old(self).role_entries().push((role.name, role))
            },
            final(self).users_view() == old(self).users_view(),
            final(self).user_entries() == old(self).user_entries(),
            final(self).rate_windows() == old(self).rate_windows(),
            final(self).secret() == old(self).secret(),
            final(self).expiry_seconds() == old(self).expiry_seconds(),
    {
        if self.roles.contains_key(role.name.as_str()) {
            return Err(str_to_string("Role already exists"));
        }
        let name = role.name.clone();
        self.roles.insert(name, role);
        Ok(())
    }

    /// A copy of the role named `role_name`.
    pub fn get_role(&self, role_name: &str) -> (r: Option<Role>)
        ensures
            r is Some <==> self.roles_view().contains_key(role_name@),
            r matches Some(x) ==> x@ == self.roles_view()[role_name@]@,
    {
        match self.roles.get(role_name) {
            Some(x) => Some(x.duplicate()),
            None => None,
        }
    }

    /// Copies of all roles, in creation order.
    pub fn list_roles(&self) -> (r: Vec<Role>)
        ensures
            r@.map_values(|x: Role| x@) == entry_roles(self.role_entries()),
    {
        let n = self.roles.len();
        let mut r: Vec<Role> = Vec::new();
        let mut i: usize = 0;
        while i < n
            invariant
                n == self.role_entries().len(),
                i <= n,
                r@.len() == i,
                forall|j: int| 0 <= j < i ==> #[trigger] r@[j]@ == self.role_entries()[j].1@,
            decreases n - i,
        {
            let e = self.roles.entry_at(i);
            r.push(e.1.duplicate());
            i = i + 1;
        }
        proof {
            assert(r@.map_values(|x: Role| x@) =~= entry_roles(self.role_entries()));
        }
        r
    }

    /// Drops the request times older than five minutes at `now`.
    pub fn cleanup_at(&mut self, now: u64)
        ensures
            cleaned_at(old(self).rate_windows(), final(self).rate_windows(), now),
            final(self).users_view() == old(self).users_view(),
            final(self).user_entries() == old(self).user_entries(),
            final(self).roles_view() == old(self).roles_view(),
            final(self).role_entries() == old(self).role_entries(),
            final(self).secret() == old(self).secret(),
            final(self).expiry_seconds() == old(self).expiry_seconds(),
    {
        self.rate_limiter.cleanup_old_entries_at(now);
    }

    /// Drops the request times older than five minutes by the clock.
    pub fn cleanup(&mut self)
        ensures
            exists|now: u64| #[trigger] cleaned_at(old(self).rate_windows(), final(self).rate_windows(), now),
            final(self).users_view() == old(self).users_view(),
            final(self).user_entries() == old(self).user_entries(),
            final(self).roles_view() == old(self).roles_view(),
            final(self).role_entries() == old(self).role_entries(),
            final(self).secret() == old(self).secret(),
            final(self).expiry_seconds() == old(self).expiry_seconds(),
    {
        self.cleanup_at(now_millis());
    }
}

impl Default for AuthManager {
    /// A registry whose token secret is the placeholder
    /// `default-jwt-secret-change-in-production`.
    fn default() -> (m: AuthManager)
        ensures
            m.users_view() == Map::<Seq<char>, User>::empty(),
            default_role_table(m.roles_view()),
            m.secret() == "default-jwt-secret-change-in-production"@,
            m.expiry_seconds() == 86400,
    {
        AuthManager::new(str_to_string("default-jwt-secret-change-in-production"))
    }
}

} // verus!
