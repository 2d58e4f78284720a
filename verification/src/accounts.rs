//! Users and their credentials: API keys, password fingerprints, session
//! token claims, and the per-user request rate window.

use vstd::prelude::*;
use crate::dmap::{list_entries, list_get, list_insert, list_keys, list_new, list_remove, ListMap};
use crate::auth::{clone_strings, match_all_patterns, all_topics_patterns, strings_view, PermissionSet, Permission};
use crate::clock::now_millis;
use crate::crypto::{fingerprint, new_uuid_string, secret_fingerprint};
use vstd::string::StringSliceAdditionalSpecFns;

verus! {

/// An API key as plain values.
pub struct ApiKeyView {
    pub id: Seq<char>,
    pub name: Seq<char>,
    pub key_hash: Seq<char>,
    pub permissions: Set<Permission>,
    pub topic_patterns: Seq<Seq<char>>,
    pub expires_at: Option<u64>,
    pub last_used: Option<u64>,
    pub usage_count: u64,
    pub enabled: bool,
    pub created_at: u64,
}

/// An API key. Only the fingerprint of the secret is kept.
#[derive(Debug)]
pub struct ApiKey {
    pub id: String,
    pub name: String,
    pub key_hash: String,
    pub permissions: PermissionSet,
    pub topic_patterns: Vec<String>,
    pub expires_at: Option<u64>,
    pub last_used: Option<u64>,
    pub usage_count: u64,
    pub enabled: bool,
    pub created_at: u64,
}

impl View for ApiKey {
    type V = ApiKeyView;

    open spec fn view(&self) -> ApiKeyView {
        ApiKeyView {
            id: self.id@,
            name: self.name@,
            key_hash: self.key_hash@,
            permissions: self.permissions@,
            topic_patterns: strings_view(self.topic_patterns@),
            expires_at: self.expires_at,
            last_used: self.last_used,
            usage_count: self.usage_count,
            enabled: self.enabled,
            created_at: self.created_at,
        }
    }
}

/// A key has expired at `now` when it has an expiry and `now` has reached it.
pub open spec fn key_expired_at(k: ApiKeyView, now: u64) -> bool {
    match k.expires_at {
        Some(e) => now >= e,
        None => false,
    }
}

impl ApiKey {
    /// A key for secret `key`, with identifier `id`, created at `now`:
    /// enabled, unused, never expiring, matching every topic, no permissions.
    pub fn new_with(name: String, key: &str, id: String, now: u64) -> (k: ApiKey)
        ensures
            k.id == id,
            k.name == name,
            k.key_hash@ == secret_fingerprint(key.spec_bytes()),
            k.permissions@ == Set::<Permission>::empty(),
            all_topics_patterns(k.topic_patterns@),
            k.expires_at is None,
            k.last_used is None,
            k.usage_count == 0,
            k.enabled,
            k.created_at == now,
    {
        ApiKey {
            id,
            name,
            key_hash: fingerprint(key),
            permissions: PermissionSet::new(),
            topic_patterns: match_all_patterns(),
            expires_at: None,
            last_used: None,
            usage_count: 0,
            enabled: true,
            created_at: now,
        }
    }

    /// A key for secret `key` with a fresh random identifier, created now.
    pub fn new(name: String, key: &str) -> (k: ApiKey)
        ensures
            k.name == name,
            k.key_hash@ == secret_fingerprint(key.spec_bytes()),
            k.permissions@ == Set::<Permission>::empty(),
            all_topics_patterns(k.topic_patterns@),
            k.expires_at is None,
            k.last_used is None,
            k.usage_count == 0,
            k.enabled,
    {
        ApiKey::new_with(name, key, new_uuid_string(), now_millis())
    }

    /// Whether `key` is this key's secret (its fingerprint matches).
    pub fn verify_key(&self, key: &str) -> (r: bool)
        ensures
            r == (secret_fingerprint(key.spec_bytes()) == self.key_hash@),
    {
        let h = fingerprint(key);
        h == self.key_hash
    }

    /// Whether the key has expired at `now` (milliseconds).
    pub fn is_expired_at(&self, now: u64) -> (r: bool)
        ensures
            r == key_expired_at(self@, now),
    {
        match self.expires_at {
            Some(e) => now >= e,
            None => false,
        }
    }

    /// Whether the key has expired by the clock.
    pub fn is_expired(&self) -> (r: bool)
        ensures
            exists|now: u64| r == #[trigger] key_expired_at(self@, now),
            self.expires_at is None ==> !r,
    {
        let now = now_millis();
        let r = self.is_expired_at(now);
        proof {
            assert(r == key_expired_at(self@, now));
        }
        r
    }

    /// Counts one more use, made at `now`.
    pub fn record_usage_at(&mut self, now: u64)
        requires
            old(self).usage_count < u64::MAX,
        ensures
            final(self)@ == (ApiKeyView {
                usage_count: (old(self).usage_count + 1) as u64,
                last_used: Some(now),
                ..old(self)@
            }),
    {
        self.usage_count = self.usage_count + 1;
        self.last_used = Some(now);
    }

    /// Counts one more use, made now.
    pub fn record_usage(&mut self)
        requires
            old(self).usage_count < u64::MAX,
        ensures
            final(self).usage_count == old(self).usage_count + 1,
            final(self).last_used is Some,
            final(self)@ == (ApiKeyView {
                usage_count: final(self).usage_count,
                last_used: final(self).last_used,
                ..old(self)@
            }),
    {
        self.record_usage_at(now_millis())
    }

    /// A copy of the key.
    pub fn duplicate(&self) -> (r: ApiKey)
        ensures
            r@ == self@,
    {
        ApiKey {
            id: self.id.clone(),
            name: self.name.clone(),
            key_hash: self.key_hash.clone(),
            permissions: self.permissions.duplicate(),
            topic_patterns: clone_strings(&self.topic_patterns),
            expires_at: self.expires_at,
            last_used: self.last_used,
            usage_count: self.usage_count,
            enabled: self.enabled,
            created_at: self.created_at,
        }
    }
}

/// The view of each key in a list.
pub open spec fn keys_view(v: Seq<ApiKey>) -> Seq<ApiKeyView> {
    v.map_values(|k: ApiKey| k@)
}

/// A copy of a list of keys.
pub fn clone_keys(v: &Vec<ApiKey>) -> (r: Vec<ApiKey>)
    ensures
        keys_view(r@) == keys_view(v@),
{
    let mut r: Vec<ApiKey> = Vec::new();
    let mut i: usize = 0;
    while i < v.len()
        invariant
            i <= v@.len(),
            r@.len() == i,
            forall|j: int| 0 <= j < i ==> r@[j]@ == v@[j]@,
        decreases v@.len() - i,
    {
        r.push(v[i].duplicate());
        i = i + 1;
    }
    proof {
        assert(keys_view(r@) =~= keys_view(v@));
    }
    r
}

/// A user as plain values.
pub struct UserView {
    pub id: Seq<char>,
    pub username: Seq<char>,
    pub email: Option<Seq<char>>,
    pub password_hash: Option<Seq<char>>,
    pub api_keys: Seq<ApiKeyView>,
    pub roles: Seq<Seq<char>>,
    pub enabled: bool,
    pub last_login: Option<u64>,
    pub login_count: u64,
    pub created_at: u64,
    pub updated_at: u64,
}

/// The characters of an optional string.
pub open spec fn opt_string_view(s: Option<String>) -> Option<Seq<char>> {
    match s {
        Some(t) => Some(t@),
        None => None,
    }
}

/// A user account.
#[derive(Debug)]
pub struct User {
    pub id: String,
    pub username: String,
    pub email: Option<String>,
    /// Fingerprint of the password, for password sign-in.
    pub password_hash: Option<String>,
    pub api_keys: Vec<ApiKey>,
    pub roles: Vec<String>,
    pub enabled: bool,
    pub last_login: Option<u64>,
    pub login_count: u64,
    pub created_at: u64,
    pub updated_at: u64,
}

impl View for User {
    type V = UserView;

    open spec fn view(&self) -> UserView {
        UserView {
            id: self.id@,
            username: self.username@,
            email: opt_string_view(self.email),
            password_hash: opt_string_view(self.password_hash),
            api_keys: keys_view(self.api_keys@),
            roles: strings_view(self.roles@),
            enabled: self.enabled,
            last_login: self.last_login,
            login_count: self.login_count,
            created_at: self.created_at,
            updated_at: self.updated_at,
        }
    }
}

/// The role list a new account starts with.
pub open spec fn default_user_roles(r: Seq<Seq<char>>) -> bool {
    r == seq![seq!['u', 's', 'e', 'r']]
}

/// A list holding only the role `user`.
pub fn default_roles() -> (v: Vec<String>)
    ensures
        default_user_roles(strings_view(v@)),
{
    let mut v: Vec<String> = Vec::new();
    v.push(crate::text::str_to_string("user"));
    proof {
        reveal_strlit("user");
        assert(v@[0]@ == seq!['u', 's', 'e', 'r']);
        assert(strings_view(v@) =~= seq![seq!['u', 's', 'e', 'r']]);
    }
    v
}

/// A copy of an optional string.
pub fn clone_opt_string(s: &Option<String>) -> (r: Option<String>)
    ensures
        r == *s,
{
    match s {
        Some(t) => Some(t.clone()),
        None => None,
    }
}

impl User {
    /// An enabled account created at `now`, with the role `user`, no keys and no password.
    pub fn new_at(id: String, username: String, email: Option<String>, now: u64) -> (u: User)
        ensures
            u.id == id,
            u.username == username,
            u.email == email,
            u.password_hash is None,
            u.api_keys@.len() == 0,
            default_user_roles(strings_view(u.roles@)),
            u.enabled,
            u.last_login is None,
            u.login_count == 0,
            u.created_at == now,
            u.updated_at == now,
    {
        User {
            id,
            username,
            email,
            password_hash: None,
            api_keys: Vec::new(),
            roles: default_roles(),
            enabled: true,
            last_login: None,
            login_count: 0,
            created_at: now,
            updated_at: now,
        }
    }

    /// An enabled account created now, with the role `user`, no keys and no password.
    pub fn new(id: String, username: String, email: Option<String>) -> (u: User)
        ensures
            u.id == id,
            u.username == username,
            u.email == email,
            u.password_hash is None,
            u.api_keys@.len() == 0,
            default_user_roles(strings_view(u.roles@)),
            u.enabled,
            u.last_login is None,
            u.login_count == 0,
            u.created_at == u.updated_at,
    {
        User::new_at(id, username, email, now_millis())
    }

    /// Stores the fingerprint of `password`.
    pub fn set_password(&mut self, password: &str)
        ensures
            final(self)@ == (UserView {
                password_hash: Some(secret_fingerprint(password.spec_bytes())),
                ..old(self)@
            }),
    {
        self.password_hash = Some(fingerprint(password));
    }

    /// Whether `password` matches the stored fingerprint (false without one).
    pub fn verify_password(&self, password: &str) -> (r: bool)
        ensures
            r == (self@.password_hash == Some(secret_fingerprint(password.spec_bytes()))),
    {
        match &self.password_hash {
            Some(h) => {
                let computed = fingerprint(password);
                computed == *h
            },
            None => false,
        }
    }

    /// Adds a key, stamping the account as updated at `now`.
    pub fn add_api_key_at(&mut self, key: ApiKey, now: u64)
        ensures
            final(self)@ == (UserView {
                api_keys: old(self)@.api_keys.push(key@),
                updated_at: now,
                ..old(self)@
            }),
    {
        self.api_keys.push(key);
        self.updated_at = now;
        proof {
            assert(keys_view(self.api_keys@) =~= keys_view(old(self).api_keys@).push(key@));
        }
    }

    /// Adds a key, stamping the account as updated now.
    pub fn add_api_key(&mut self, key: ApiKey)
        ensures
            final(self)@ == (UserView {
                api_keys: old(self)@.api_keys.push(key@),
                updated_at: final(self).updated_at,
                ..old(self)@
            }),
    {
        self.add_api_key_at(key, now_millis())
    }

    /// A copy of the account.
    pub fn duplicate(&self) -> (r: User)
        ensures
            r@ == self@,
    {
        User {
            id: self.id.clone(),
            username: self.username.clone(),
            email: clone_opt_string(&self.email),
            password_hash: clone_opt_string(&self.password_hash),
            api_keys: clone_keys(&self.api_keys),
            roles: clone_strings(&self.roles),
            enabled: self.enabled,
            last_login: self.last_login,
            login_count: self.login_count,
            created_at: self.created_at,
            updated_at: self.updated_at,
        }
    }
}

/// Session token claims.
#[derive(Debug)]
pub struct JwtClaims {
    /// Subject: the user id.
    pub sub: String,
    pub username: String,
    pub roles: Vec<String>,
    /// Expiry, in seconds since the epoch.
    pub exp: u64,
    /// Issue time, in seconds since the epoch.
    pub iat: u64,
    /// Issuer.
    pub iss: String,
}

/// The timestamps still inside the window: those less than `horizon`
/// milliseconds before `now`, the difference taken modulo 2^64.
pub open spec fn within_window(ts: Seq<u64>, now: u64, horizon: u64) -> Seq<u64> {
    ts.filter(|t: u64| ((now - t) % 0x1_0000_0000_0000_0000) < horizon)
}

/// The outcome of a rate check: whether the request is admitted, and the
/// user's window afterwards.
pub open spec fn rate_check(ts: Seq<u64>, now: u64, limit: u64) -> (bool, Seq<u64>) {
    let w = within_window(ts, now, 1000);
    if w.len() >= limit as usize {
        (false, w)
    } else {
        (true, w.push(now))
    }
}

/// One rate check of `user` at `now` took the windows from `before` to
/// `after` and answered `ok`.
pub open spec fn rate_step(
    before: Map<Seq<char>, Seq<u64>>,
    after: Map<Seq<char>, Seq<u64>>,
    user: Seq<char>,
    limit: u64,
    now: u64,
    ok: bool,
) -> bool {
    let ts = if before.contains_key(user) { before[user] } else { Seq::<u64>::empty() };
    &&& ok == rate_check(ts, now, limit).0
    &&& after == before.insert(user, rate_check(ts, now, limit).1)
}

/// Cleaning at `now` took the windows from `before` to `after`: each user
/// keeps the requests of the last five minutes, and users left with none go.
pub open spec fn cleaned_at(before: Map<Seq<char>, Seq<u64>>, after: Map<Seq<char>, Seq<u64>>, now: u64) -> bool {
    &&& forall|k: Seq<char>| #[trigger] after.contains_key(k) <==> (
        before.contains_key(k) && within_window(before[k], now, 300_000).len() > 0)
    &&& forall|k: Seq<char>| #[trigger] after.contains_key(k) ==>
        after[k] == within_window(before[k], now, 300_000)
}

/// The timestamps of each user's recent requests.
#[derive(Debug)]
pub struct RateLimiter {
    requests: ListMap,
}

/// Keeps the timestamps less than `horizon` before `now` (modulo 2^64).
fn retain_recent(ts: &Vec<u64>, now: u64, horizon: u64) -> (r: Vec<u64>)
    ensures
        r@ == within_window(ts@, now, horizon),
{
    let mut r: Vec<u64> = Vec::new();
    let mut i: usize = 0;
    while i < ts.len()
        invariant
            i <= ts@.len(),
            r@ == within_window(ts@.subrange(0, i as int), now, horizon),
        decreases ts@.len() - i,
    {
        let t = ts[i];
        proof {
            let a = ts@.subrange(0, i as int);
            let b = ts@.subrange(0, i + 1);
            assert(b.drop_last() =~= a);
            assert(b.last() == t);
            reveal(Seq::filter);
        }
        if now.wrapping_sub(t) < horizon {
            r.push(t);
        }
        i = i + 1;
    }
    proof {
        assert(ts@.subrange(0, ts@.len() as int) =~= ts@);
    }
    r
}

impl RateLimiter {
    /// The recorded request times of each user.
    pub closed spec fn view(&self) -> Map<Seq<char>, Seq<u64>> {
        list_entries(self.requests)
    }

    /// No user has recorded requests.
    pub fn new() -> (r: RateLimiter)
        ensures
            r.view() == Map::<Seq<char>, Seq<u64>>::empty(),
    {
        let r = RateLimiter { requests: list_new() };
        proof {
            assert(r.view() =~= Map::<Seq<char>, Seq<u64>>::empty());
        }
        r
    }

    /// Admits a request from `user_id` at `now` when fewer than `limit`
    /// requests of the user fall in the last second; the user's older
    /// entries are dropped and an admitted request is recorded.
    pub fn check_rate_limit_at(&mut self, user_id: &str, limit: u64, now: u64) -> (ok: bool)
        ensures
            rate_step(old(self).view(), final(self).view(), user_id@, limit, now, ok),
    {
        let key = crate::text::str_to_string(user_id);
        let before: Vec<u64> = match list_remove(&mut self.requests, user_id) {
            Some(v) => v,
            None => Vec::new(),
        };
        let mut w = retain_recent(&before, now, 1000);
        let ok = if w.len() >= limit as usize {
            false
        } else {
            w.push(now);
            true
        };
        list_insert(&mut self.requests, key, w);
        proof {
            assert(self.view() =~= old(self).view().insert(user_id@, rate_check(before@, now, limit).1));
        }
        ok
    }

    /// Admits a request from `user_id` by the clock (see `check_rate_limit_at`).
    pub fn check_rate_limit(&mut self, user_id: &str, limit: u64) -> (ok: bool)
        ensures
            exists|now: u64| #[trigger] rate_step(old(self).view(), final(self).view(), user_id@, limit, now, ok),
    {
        self.check_rate_limit_at(user_id, limit, now_millis())
    }

    /// Drops every request older than five minutes at `now`, and the users
    /// left with none.
    pub fn cleanup_old_entries_at(&mut self, now: u64)
        ensures
            cleaned_at(old(self).view(), final(self).view(), now),
    {
        let mut kept: ListMap = list_new();
        let keys = list_keys(&self.requests);
        let ghost before = list_entries(self.requests);
        let mut i: usize = 0;
        while i < keys.len()
            invariant
                self.requests == old(self).requests,
                before == list_entries(self.requests),
                i <= keys@.len(),
                forall|a: int, b: int| 0 <= a < b < keys@.len() ==> keys@[a]@ != keys@[b]@,
                forall|k: Seq<char>| #[trigger] before.contains_key(k) <==> exists|j: int| 0 <= j < keys@.len() && keys@[j]@ == k,
                forall|k: Seq<char>| #[trigger] list_entries(kept).contains_key(k) <==> (
                    (exists|j: int| 0 <= j < i && keys@[j]@ == k)
                        && before.contains_key(k) && within_window(before[k], now, 300_000).len() > 0),
                forall|k: Seq<char>| #[trigger] list_entries(kept).contains_key(k) ==>
                    list_entries(kept)[k] == within_window(before[k], now, 300_000),
            decreases keys@.len() - i,
        {
            let ghost k = keys@[i as int]@;
            proof {
                assert(exists|j: int| 0 <= j < keys@.len() && keys@[j]@ == k);
            }
            match list_get(&self.requests, keys[i].as_str()) {
                Some(ts) => {
                    let w = retain_recent(&ts, now, 300_000);
                    if w.len() > 0 {
                        list_insert(&mut kept, crate::text::str_to_string(keys[i].as_str()), w);
                    }
                },
                None => {},
            }
            i = i + 1;
            proof {
                assert forall|q: Seq<char>| #[trigger] list_entries(kept).contains_key(q) <==> (
                    (exists|j: int| 0 <= j < i && keys@[j]@ == q)
                        && before.contains_key(q) && within_window(before[q], now, 300_000).len() > 0) by {
                    if q == k {
                        assert(keys@[i - 1]@ == q);
                    } else if exists|j: int| 0 <= j < i && keys@[j]@ == q {
                        let j = choose|j: int| 0 <= j < i && keys@[j]@ == q;
                        assert(j != i - 1);
                    }
                }
            }
        }
        proof {
            assert forall|k: Seq<char>| #[trigger] list_entries(kept).contains_key(k) <==> (
                before.contains_key(k) && within_window(before[k], now, 300_000).len() > 0) by {
                if before.contains_key(k) {
                    let j = choose|j: int| 0 <= j < keys@.len() && keys@[j]@ == k;
                }
            }
        }
        self.requests = kept;
    }

    /// Drops every request older than five minutes by the clock, and the
    /// users left with none.
    pub fn cleanup_old_entries(&mut self)
        ensures
            exists|now: u64| #[trigger] cleaned_at(old(self).view(), final(self).view(), now),
    {
        self.cleanup_old_entries_at(now_millis())
    }
}

} // verus!
