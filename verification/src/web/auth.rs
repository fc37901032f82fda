//! Admin credential checks, sessions, CSRF tokens and login rate limiting.
//!
//! Sessions and rate-limit windows run on a millisecond clock that starts
//! when the store is created. The `_at` methods take the time as an argument
//! and carry the exact contracts; the others read the clock and call them.
use vstd::prelude::*;
use crate::text_map::TextMap;
use argon2::password_hash::{PasswordHasher, PasswordVerifier};
use rand::Rng;

verus! {

#[verifier::external_type_specification]
#[verifier::external_body]
pub struct ExInstant(std::time::Instant);

/// The current instant. Trusted: calls `std::time::Instant::now`; nothing is
/// stated of the result, which is the time.
#[verifier::external_body]
fn instant_now() -> std::time::Instant {
    std::time::Instant::now()
}

/// Milliseconds elapsed since `origin`. Trusted: calls `Instant::elapsed`
/// and `Duration::as_millis`; nothing is stated of the result, which is the
/// time.
#[verifier::external_body]
fn millis_since(origin: &std::time::Instant) -> u128 {
    origin.elapsed().as_millis()
}

/// `n` bytes from the thread-local generator seeded from the operating
/// system. Trusted: calls `rand::rng` and `Rng::fill_bytes`; only the length
/// of the result is stated, the bytes being random.
#[verifier::external_body]
fn random_bytes(n: usize) -> (b: Vec<u8>)
    ensures
        b@.len() == n,
{
    let mut bytes = vec![0u8; n];
    rand::rng().fill_bytes(&mut bytes);
    bytes
}

/// The lowercase hexadecimal digit for `d < 16`.
pub open spec fn hex_digit(d: u8) -> char {
    if d < 10 {
        crate::text::digit_char(d as nat)
    } else if d == 10 {
        'a'
    } else if d == 11 {
        'b'
    } else if d == 12 {
        'c'
    } else if d == 13 {
        'd'
    } else if d == 14 {
        'e'
    } else {
        'f'
    }
}

/// Bytes as lowercase hexadecimal, two digits per byte, high nibble first.
pub open spec fn hex_lower(bytes: Seq<u8>) -> Seq<char>
    decreases bytes.len(),
{
    if bytes.len() == 0 {
        Seq::empty()
    } else {
        hex_lower(bytes.drop_last()) + seq![hex_digit(bytes.last() / 16), hex_digit(bytes.last() % 16)]
    }
}

pub proof fn lemma_hex_lower_len(bytes: Seq<u8>)
    ensures
        hex_lower(bytes).len() == 2 * bytes.len(),
    decreases bytes.len(),
{
    if bytes.len() > 0 {
        lemma_hex_lower_len(bytes.drop_last());
    }
}

/// Hex-encodes bytes. Trusted: calls `hex::encode`, which the `hex` crate
/// documents as lowercase hexadecimal, two characters per byte.
#[verifier::external_body]
fn hex_encode(bytes: &Vec<u8>) -> (s: String)
    ensures
        s@ == hex_lower(bytes@),
{
    hex::encode(bytes)
}

/// A fresh session or CSRF token: 32 random bytes, hex-encoded.
fn random_token() -> (t: String)
    ensures
        t@.len() == 64,
        exists|bytes: Seq<u8>| bytes.len() == 32 && t@ == #[trigger] hex_lower(bytes),
{
    let bytes = random_bytes(32);
    proof {
        lemma_hex_lower_len(bytes@);
    }
    hex_encode(&bytes)
}

/// Whether `verify_password(plain, phc)` accepts: `phc` parses as a PHC
/// string and hashing `plain` with its parameters reproduces its hash.
pub uninterp spec fn argon2_accepts(plain: Seq<char>, phc: Seq<char>) -> bool;

/// Trusted: calls `Argon2::default()` and `PasswordVerifier::<str>::verify_password`,
/// which parses `phc` and compares hashes. The result is named
/// `argon2_accepts`.
#[verifier::external_body]
fn argon2_verify(plain: &str, phc: &str) -> (ok: bool)
    ensures
        ok == argon2_accepts(plain@, phc@),
{
    argon2::Argon2::default().verify_password(plain.as_bytes(), phc).is_ok()
}

/// Trusted: calls `Argon2::default()`, `PasswordHasher::hash_password`,
/// which draws a fresh random salt, and formats the resulting PHC string.
/// Stated of a success, as the argon2 documentation shows: the string is an
/// Argon2id PHC string and it verifies `plain`. The salt, and so the rest of
/// the string, is random.
#[verifier::external_body]
fn argon2_hash(plain: &str) -> (r: Result<String, String>)
    ensures
        r matches Ok(phc) ==> phc@.take(10) == "$argon2id$"@ && argon2_accepts(plain@, phc@),
{
    argon2::Argon2::default().hash_password(plain.as_bytes()).map(|h| h.to_string()).map_err(
        |e| e.to_string(),
    )
}

/// The message given for a credential file that holds an empty hash.
pub open spec fn empty_hash_message() -> Seq<char> {
    "credential file contains an empty hash"@
}

/// The hash read from the credential file, refused when it is empty: an
/// empty hash must stop the server rather than let it fall open.
pub fn stored_hash(argon2: String) -> (r: Result<String, String>)
    ensures
        r is Err <==> argon2@.len() == 0,
        r matches Ok(h) ==> h@ == argon2@,
        r matches Err(m) ==> m@ == empty_hash_message(),
{
    if argon2.as_str().is_empty() {
        Err(String::from_str("credential file contains an empty hash"))
    } else {
        Ok(argon2)
    }
}

/// Hash a password with argon2id and a fresh salt, returning a PHC string.
/// A successful hash verifies the password it was made from.
pub fn hash_password(plain: &str) -> (r: Result<String, String>)
    ensures
        r matches Ok(phc) ==> phc@.take(10) == "$argon2id$"@ && argon2_accepts(plain@, phc@),
{
    argon2_hash(plain)
}

/// Constant-time verification. Any malformed hash is a failed login, not a
/// panic.
pub fn verify_password(plain: &str, phc: &str) -> (ok: bool)
    ensures
        ok == argon2_accepts(plain@, phc@),
{
    argon2_verify(plain, phc)
}

struct Session {
    expires: u128,
    csrf: String,
}

/// `now + d`, or the latest representable time if that overflows.
pub open spec fn later(now: u128, d: u128) -> u128 {
    if now + d > u128::MAX {
        u128::MAX
    } else {
        (now + d) as u128
    }
}

fn later_exec(now: u128, d: u128) -> (t: u128)
    ensures
        t == later(now, d),
{
    if d > u128::MAX - now {
        u128::MAX
    } else {
        now + d
    }
}

/// Server-side session store. In memory deliberately: a restart logs
/// everyone out, which is the correct behaviour for a single-admin tool.
pub struct SessionStore {
    sessions: TextMap<Session>,
    ttl: u128,
    origin: std::time::Instant,
}

/// What `create_at(token, csrf, now)` does to a store: sessions expired by
/// `now` are dropped, and a session named `token` with the CSRF token `csrf`
/// is opened until `now + ttl`; the other sessions are unchanged.
pub open spec fn created(before: SessionStore, after: SessionStore, token: Seq<char>, csrf: Seq<char>, now: u128) -> bool {
    &&& after.ttl() == before.ttl()
    &&& forall|t: Seq<char>|
        #[trigger] after.tokens().contains(t) <==> (t == token || (before.tokens().contains(t) && before.expiry(t) > now))
    &&& after.expiry(token) == later(now, before.ttl())
    &&& after.csrf(token) == csrf
    &&& forall|t: Seq<char>|
        t != token && #[trigger] after.tokens().contains(t) ==> after.expiry(t) == before.expiry(t)
            && after.csrf(t) == before.csrf(t)
}

/// What `validate_at(token, now)` does to a store: a non-empty token naming
/// a session that expires after `now` is accepted and the session extended
/// to `now + ttl`; any other non-empty token is refused and its session, if
/// any, removed; the empty token is refused and changes nothing. Other
/// sessions are unchanged.
pub open spec fn validated(before: SessionStore, after: SessionStore, token: Seq<char>, now: u128, ok: bool) -> bool {
    &&& after.ttl() == before.ttl()
    &&& ok == (token.len() > 0 && before.tokens().contains(token) && before.expiry(token) > now)
    &&& ok ==> after.tokens() == before.tokens() && after.expiry(token) == later(now, before.ttl())
        && after.csrf(token) == before.csrf(token)
    &&& !ok && token.len() > 0 ==> after.tokens() == before.tokens().remove(token)
    &&& !ok && token.len() == 0 ==> after.tokens() == before.tokens()
    &&& forall|t: Seq<char>|
        t != token && #[trigger] after.tokens().contains(t) ==> after.expiry(t) == before.expiry(t)
            && after.csrf(t) == before.csrf(t)
}

/// What `revoke(token)` does to a store: the session named `token` is
/// gone; the others are unchanged.
pub open spec fn revoked(before: SessionStore, after: SessionStore, token: Seq<char>) -> bool {
    &&& after.ttl() == before.ttl()
    &&& after.tokens() == before.tokens().remove(token)
    &&& forall|t: Seq<char>|
        #[trigger] after.tokens().contains(t) ==> after.expiry(t) == before.expiry(t) && after.csrf(t) == before.csrf(t)
}

/// A session is accepted exactly while it is younger than the idle
/// timeout: a token just created at `t0` is accepted at `t1` exactly when
/// it is not empty and `t1` comes before `t0 + ttl`.
pub proof fn lemma_created_then_validated(
    s0: SessionStore,
    s1: SessionStore,
    s2: SessionStore,
    token: Seq<char>,
    csrf: Seq<char>,
    t0: u128,
    t1: u128,
    ok: bool,
)
    requires
        created(s0, s1, token, csrf, t0),
        validated(s1, s2, token, t1, ok),
    ensures
        ok <==> (token.len() > 0 && t1 < later(t0, s0.ttl())),
{
}

/// A session accepted at `t1` is accepted again at `t2` exactly when `t2`
/// comes before `t1 + ttl`: each use restarts the idle timeout.
pub proof fn lemma_validated_twice(
    s1: SessionStore,
    s2: SessionStore,
    s3: SessionStore,
    token: Seq<char>,
    t1: u128,
    t2: u128,
    ok: bool,
)
    requires
        validated(s1, s2, token, t1, true),
        validated(s2, s3, token, t2, ok),
    ensures
        ok <==> t2 < later(t1, s1.ttl()),
{
}

/// A revoked session, or one refused once, is refused from then on, until a
/// new session with that token is created.
pub proof fn lemma_gone_stays_refused(
    s1: SessionStore,
    s2: SessionStore,
    s3: SessionStore,
    token: Seq<char>,
    revoke: bool,
    t1: u128,
    t2: u128,
    ok: bool,
)
    requires
        revoke ==> revoked(s1, s2, token),
        !revoke ==> validated(s1, s2, token, t1, false),
        validated(s2, s3, token, t2, ok),
    ensures
        !ok,
{
}

/// Creating another session at a time before a session expires leaves it,
/// with its expiry and CSRF token.
pub proof fn lemma_create_leaves_others(
    s0: SessionStore,
    s1: SessionStore,
    token: Seq<char>,
    other: Seq<char>,
    csrf: Seq<char>,
    now: u128,
)
    requires
        other != token,
        s0.tokens().contains(token),
        s0.expiry(token) > now,
        created(s0, s1, other, csrf, now),
    ensures
        s1.tokens().contains(token),
        s1.expiry(token) == s0.expiry(token),
        s1.csrf(token) == s0.csrf(token),
{
}

/// Validating another token leaves a session, with its expiry and CSRF
/// token.
pub proof fn lemma_validate_leaves_others(
    s0: SessionStore,
    s1: SessionStore,
    token: Seq<char>,
    other: Seq<char>,
    now: u128,
    ok: bool,
)
    requires
        other != token,
        s0.tokens().contains(token),
        validated(s0, s1, other, now, ok),
    ensures
        s1.tokens().contains(token),
        s1.expiry(token) == s0.expiry(token),
        s1.csrf(token) == s0.csrf(token),
{
    if !ok && other.len() > 0 {
        assert(s0.tokens().remove(other).contains(token));
    }
}

/// Revoking another token leaves a session, with its expiry and CSRF token.
pub proof fn lemma_revoke_leaves_others(s0: SessionStore, s1: SessionStore, token: Seq<char>, other: Seq<char>)
    requires
        other != token,
        s0.tokens().contains(token),
        revoked(s0, s1, other),
    ensures
        s1.tokens().contains(token),
        s1.expiry(token) == s0.expiry(token),
        s1.csrf(token) == s0.csrf(token),
{
    assert(s0.tokens().remove(other).contains(token));
}

impl SessionStore {
    pub closed spec fn wf(&self) -> bool {
        self.sessions.wf()
    }

    /// The session tokens currently held.
    pub closed spec fn tokens(&self) -> Set<Seq<char>> {
        self.sessions@.dom()
    }

    /// When a session expires, in milliseconds on the store's clock.
    pub closed spec fn expiry(&self, token: Seq<char>) -> u128 {
        self.sessions@[token].expires
    }

    /// The CSRF token bound to a session.
    pub closed spec fn csrf(&self, token: Seq<char>) -> Seq<char> {
        self.sessions@[token].csrf@
    }

    /// The idle timeout, in milliseconds.
    pub closed spec fn ttl(&self) -> u128 {
        self.ttl
    }

    /// A store with no sessions whose sessions last `ttl_millis` after
    /// their last use.
    pub fn new(ttl_millis: u128) -> (s: Self)
        ensures
            s.wf(),
            s.tokens() == Set::<Seq<char>>::empty(),
            s.ttl() == ttl_millis,
    {
        let s = SessionStore { sessions: TextMap::new(), ttl: ttl_millis, origin: instant_now() };
        proof {
            assert(s.tokens() =~= Set::<Seq<char>>::empty());
        }
        s
    }

    /// Drops every session that has expired by `now`.
    fn drop_expired(&mut self, now: u128)
        requires
            old(self).wf(),
        ensures
            final(self).wf(),
            final(self).ttl == old(self).ttl,
            forall|t: Seq<char>|
                #[trigger] final(self).tokens().contains(t) <==> (old(self).tokens().contains(t)
                    && old(self).expiry(t) > now),
            forall|t: Seq<char>|
                #[trigger] final(self).tokens().contains(t) ==> final(self).sessions@[t]
                    == old(self).sessions@[t],
    {
        let ghost before = self.sessions;
        proof {
            before.lemma_entries();
        }
        let mut kept: TextMap<Session> = TextMap::new();
        let mut i: usize = 0;
        let n = self.sessions.len();
        while i < n
            invariant
                self.sessions == before,
                before.wf(),
                kept.wf(),
                n == before.key_seq().len(),
                i <= n,
                forall|t: Seq<char>|
                    #[trigger] kept@.contains_key(t) <==> exists|j: int|
                        0 <= j < i && before.key_seq()[j] == t && before.value_seq()[j].expires > now,
                forall|t: Seq<char>| #[trigger] kept@.contains_key(t) ==> kept@[t] == before@[t],
            decreases n - i,
        {
            proof {
                before.lemma_entries();
            }
            let v = self.sessions.value_at(i);
            if v.expires > now {
                let k = self.sessions.key_at(i);
                let copy = Session { expires: v.expires, csrf: v.csrf.clone() };
                kept.insert(k.as_str(), copy);
                proof {
                    assert(before@.contains_key(before.key_seq()[i as int]));
                    assert(before@[before.key_seq()[i as int]] == before.value_seq()[i as int]);
                    assert forall|t: Seq<char>| #[trigger] kept@.contains_key(t) <==> exists|j: int|
                        0 <= j < i + 1 && before.key_seq()[j] == t && before.value_seq()[j].expires > now by {
                        if t == before.key_seq()[i as int] {
                            assert(before.key_seq()[i as int] == t);
                        }
                    }
                }
            } else {
                proof {
                    assert forall|t: Seq<char>| #[trigger] kept@.contains_key(t) <==> exists|j: int|
                        0 <= j < i + 1 && before.key_seq()[j] == t && before.value_seq()[j].expires > now by {
                        if exists|j: int| 0 <= j < i + 1 && before.key_seq()[j] == t && before.value_seq()[j].expires > now {
                            let j = choose|j: int| 0 <= j < i + 1 && before.key_seq()[j] == t && before.value_seq()[j].expires > now;
                            assert(j != i);
                        }
                    }
                }
            }
            i = i + 1;
        }
        self.sessions = kept;
        proof {
            assert forall|t: Seq<char>| #[trigger] self.tokens().contains(t) <==> (before@.dom().contains(t)
                && before@[t].expires > now) by {
                if before@.dom().contains(t) && before@[t].expires > now {
                    let j = choose|j: int| 0 <= j < before.key_seq().len() && before.key_seq()[j] == t;
                    assert(before.value_seq()[j] == before@[t]);
                }
                if self.tokens().contains(t) {
                    let j = choose|j: int| 0 <= j < n && before.key_seq()[j] == t && before.value_seq()[j].expires > now;
                    assert(before@[t] == before.value_seq()[j]);
                }
            }
        }
    }

    /// Opens a session with the given tokens at time `now`. Sessions that
    /// have expired by `now` are dropped first.
    pub fn create_at(&mut self, token: String, csrf: String, now: u128)
        requires
            old(self).wf(),
        ensures
            final(self).wf(),
            created(*old(self), *final(self), token@, csrf@, now),
    {
        let ghost before = *self;
        self.drop_expired(now);
        let ghost mid = *self;
        let expires = later_exec(now, self.ttl);
        self.sessions.insert(token.as_str(), Session { expires, csrf });
        proof {
            assert forall|t: Seq<char>| #[trigger] self.tokens().contains(t) <==> (t == token@ || (before.tokens().contains(t)
                && before.expiry(t) > now)) by {
                assert(self.tokens().contains(t) == (t == token@ || mid.tokens().contains(t)));
                if mid.tokens().contains(t) {
                    assert(before.tokens().contains(t) && before.expiry(t) > now);
                }
                if before.tokens().contains(t) && before.expiry(t) > now {
                    assert(mid.tokens().contains(t));
                }
            }
            assert forall|t: Seq<char>| t != token@ && #[trigger] self.tokens().contains(t) implies self.expiry(t)
                == before.expiry(t) && self.csrf(t) == before.csrf(t) by {
                assert(mid.tokens().contains(t));
            }
        }
    }

    /// Opens a new session and returns its token: 32 random bytes,
    /// hex-encoded. The session gets its own random CSRF token. This is
    /// `create_at` at the current time on the store's clock, so sessions
    /// expired by then are dropped.
    pub fn create(&mut self) -> (token: String)
        requires
            old(self).wf(),
        ensures
            final(self).wf(),
            token@.len() == 64,
            exists|bytes: Seq<u8>| bytes.len() == 32 && token@ == #[trigger] hex_lower(bytes),
            exists|now: u128, csrf: Seq<char>| #[trigger] created(*old(self), *final(self), token@, csrf, now),
            final(self).tokens().contains(token@),
            final(self).csrf(token@).len() == 64,
            forall|t: Seq<char>|
                t != token@ && #[trigger] final(self).tokens().contains(t) ==> old(self).tokens().contains(t)
                    && final(self).expiry(t) == old(self).expiry(t) && final(self).csrf(t)
                    == old(self).csrf(t),
    {
        let token = random_token();
        let csrf = random_token();
        let now = millis_since(&self.origin);
        let ghost csrf_view = csrf@;
        self.create_at(token.clone(), csrf, now);
        proof {
            assert(created(*old(self), *self, token@, csrf_view, now));
        }
        token
    }

    /// Whether `token` names a session that is live at `now`. A live session
    /// is extended to `now + ttl` (idle timeout); an expired one is removed.
    pub fn validate_at(&mut self, token: &str, now: u128) -> (ok: bool)
        requires
            old(self).wf(),
        ensures
            final(self).wf(),
            validated(*old(self), *final(self), token@, now, ok),
    {
        let ghost before = *self;
        if token.is_empty() {
            return false;
        }
        match self.sessions.remove(token) {
            Some(session) => {
                if session.expires > now {
                    let expires = later_exec(now, self.ttl);
                    self.sessions.insert(token, Session { expires, csrf: session.csrf });
                    proof {
                        assert(self.tokens() =~= before.tokens());
                    }
                    true
                } else {
                    false
                }
            },
            None => {
                proof {
                    assert(self.tokens() =~= before.tokens().remove(token@));
                }
                false
            },
        }
    }

    /// Whether `token` names a live session; a live session is extended:
    /// `validate_at` at the current time on the store's clock.
    pub fn validate(&mut self, token: &str) -> (ok: bool)
        requires
            old(self).wf(),
        ensures
            final(self).wf(),
            exists|now: u128| validated(*old(self), *final(self), token@, now, ok),
            ok ==> token@.len() > 0 && old(self).tokens().contains(token@) && final(self).tokens() == old(self).tokens(),
            !ok && token@.len() > 0 ==> !final(self).tokens().contains(token@),
    {
        let now = millis_since(&self.origin);
        self.validate_at(token, now)
    }

    /// Ends the session named by `token`, if there is one.
    pub fn revoke(&mut self, token: &str)
        requires
            old(self).wf(),
        ensures
            final(self).wf(),
            revoked(*old(self), *final(self), token@),
    {
        let _ = self.sessions.remove(token);
    }

    /// The CSRF token bound to the session named by `token`.
    pub fn csrf_for(&self, token: &str) -> (r: Option<String>)
        requires
            self.wf(),
        ensures
            r is Some <==> self.tokens().contains(token@),
            r matches Some(c) ==> c@ == self.csrf(token@),
    {
        match self.sessions.get(token) {
            Some(s) => Some(s.csrf.clone()),
            None => None,
        }
    }
}

} // verus!

verus! {

#[derive(Clone, Copy)]
struct Attempt {
    count: u32,
    started: u128,
}

/// Milliseconds from `started` to `now`, or none if `started` is later.
pub open spec fn elapsed(now: u128, started: u128) -> nat {
    if now >= started {
        (now - started) as nat
    } else {
        0
    }
}

/// What `check_at(key, now)` does to a limiter: closed windows are
/// dropped; a key without an open window starts one at `now` with no
/// attempts; the attempt is allowed, and counted, while fewer than `max`
/// were counted in the window; a refused attempt is not counted; other keys
/// keep their windows.
pub open spec fn checked(before: RateLimiter, after: RateLimiter, key: Seq<char>, now: u128, ok: bool) -> bool {
    let prior: u32 = if before.open_at(key, now) { before.count(key) } else { 0 };
    let start: u128 = if before.open_at(key, now) { before.started(key) } else { now };
    &&& after.max() == before.max()
    &&& after.window() == before.window()
    &&& ok == (prior < before.max())
    &&& after.count(key) == if ok { prior + 1 } else { prior as int }
    &&& after.started(key) == start
    &&& forall|t: Seq<char>| #[trigger] after.keys().contains(t) <==> (t == key || before.open_at(t, now))
    &&& forall|t: Seq<char>|
        t != key && #[trigger] after.keys().contains(t) ==> after.count(t) == before.count(t)
            && after.started(t) == before.started(t)
}

/// Fixed-window per-key limiter for the login endpoint.
///
/// Not doing account lockout: there is one account, so a lockout is a
/// self-denial-of-service that an attacker can trigger for free.
pub struct RateLimiter {
    attempts: TextMap<Attempt>,
    max: u32,
    window: u128,
    origin: std::time::Instant,
}

impl RateLimiter {
    pub closed spec fn wf(&self) -> bool {
        self.attempts.wf()
    }

    /// Keys with a recorded window.
    pub closed spec fn keys(&self) -> Set<Seq<char>> {
        self.attempts@.dom()
    }

    /// Attempts recorded for a key in its current window.
    pub closed spec fn count(&self, key: Seq<char>) -> u32 {
        self.attempts@[key].count
    }

    /// When a key's current window started.
    pub closed spec fn started(&self, key: Seq<char>) -> u128 {
        self.attempts@[key].started
    }

    /// Attempts allowed per window.
    pub closed spec fn max(&self) -> u32 {
        self.max
    }

    /// The window length, in milliseconds.
    pub closed spec fn window(&self) -> u128 {
        self.window
    }

    /// Whether `key` has a window that is still open at `now`.
    pub open spec fn open_at(&self, key: Seq<char>, now: u128) -> bool {
        self.keys().contains(key) && elapsed(now, self.started(key)) <= self.window()
    }

    /// A limiter with no windows, allowing `max` attempts per key in each
    /// window of `window_millis`.
    pub fn new(max: u32, window_millis: u128) -> (r: Self)
        ensures
            r.wf(),
            r.max() == max,
            r.window() == window_millis,
            r.keys() == Set::<Seq<char>>::empty(),
    {
        let r = RateLimiter { attempts: TextMap::new(), max, window: window_millis, origin: instant_now() };
        proof {
            assert(r.keys() =~= Set::<Seq<char>>::empty());
        }
        r
    }

    /// Drops every window that has closed by `now`.
    fn drop_closed(&mut self, now: u128)
        requires
            old(self).wf(),
        ensures
            final(self).wf(),
            final(self).max == old(self).max,
            final(self).window == old(self).window,
            forall|t: Seq<char>| #[trigger] final(self).keys().contains(t) <==> old(self).open_at(t, now),
            forall|t: Seq<char>| #[trigger] final(self).keys().contains(t) ==> final(self).attempts@[t] == old(self).attempts@[t],
    {
        let ghost before = self.attempts;
        let ghost window = self.window;
        let mut kept: TextMap<Attempt> = TextMap::new();
        let mut i: usize = 0;
        let n = self.attempts.len();
        while i < n
            invariant
                self.attempts == before,
                self.window == window,
                before.wf(),
                kept.wf(),
                n == before.key_seq().len(),
                i <= n,
                forall|t: Seq<char>|
                    #[trigger] kept@.contains_key(t) <==> exists|j: int|
                        0 <= j < i && before.key_seq()[j] == t && elapsed(now, before.value_seq()[j].started) <= window,
                forall|t: Seq<char>| #[trigger] kept@.contains_key(t) ==> kept@[t] == before@[t],
            decreases n - i,
        {
            proof {
                before.lemma_entries();
            }
            let a = *self.attempts.value_at(i);
            let fresh = if now >= a.started {
                now - a.started <= self.window
            } else {
                true
            };
            if fresh {
                let k = self.attempts.key_at(i);
                kept.insert(k.as_str(), a);
                proof {
                    assert(before@.contains_key(before.key_seq()[i as int]));
                    assert forall|t: Seq<char>| #[trigger] kept@.contains_key(t) <==> exists|j: int|
                        0 <= j < i + 1 && before.key_seq()[j] == t && elapsed(now, before.value_seq()[j].started) <= window by {
                        if t == before.key_seq()[i as int] {
                            assert(before.key_seq()[i as int] == t);
                        }
                    }
                }
            } else {
                proof {
                    assert forall|t: Seq<char>| #[trigger] kept@.contains_key(t) <==> exists|j: int|
                        0 <= j < i + 1 && before.key_seq()[j] == t && elapsed(now, before.value_seq()[j].started) <= window by {
                        if exists|j: int| 0 <= j < i + 1 && before.key_seq()[j] == t && elapsed(now, before.value_seq()[j].started) <= window {
                            let j = choose|j: int| 0 <= j < i + 1 && before.key_seq()[j] == t && elapsed(now, before.value_seq()[j].started) <= window;
                            assert(j != i);
                        }
                    }
                }
            }
            i = i + 1;
        }
        self.attempts = kept;
        proof {
            before.lemma_entries();
            assert forall|t: Seq<char>| #[trigger] self.keys().contains(t) <==> (before@.dom().contains(t)
                && elapsed(now, before@[t].started) <= window) by {
                if before@.dom().contains(t) && elapsed(now, before@[t].started) <= window {
                    let j = choose|j: int| 0 <= j < before.key_seq().len() && before.key_seq()[j] == t;
                    assert(before.value_seq()[j] == before@[t]);
                }
                if self.keys().contains(t) {
                    let j = choose|j: int| 0 <= j < n && before.key_seq()[j] == t && elapsed(now, before.value_seq()[j].started) <= window;
                    assert(before@[t] == before.value_seq()[j]);
                }
            }
        }
    }

    /// Records an attempt for `key` at `now`; `true` if it is allowed.
    ///
    /// Closed windows are dropped first, so the map is bounded by the number
    /// of distinct clients seen within one window. A key without an open
    /// window starts a fresh one at `now` with no attempts. The attempt is
    /// allowed, and counted, while fewer than `max` have been counted in the
    /// window; a refused attempt is not counted.
    pub fn check_at(&mut self, key: &str, now: u128) -> (ok: bool)
        requires
            old(self).wf(),
        ensures
            final(self).wf(),
            checked(*old(self), *final(self), key@, now, ok),
    {
        let ghost before = *self;
        self.drop_closed(now);
        let ghost mid = *self;
        let current = match self.attempts.get(key) {
            Some(a) => *a,
            None => Attempt { count: 0, started: now },
        };
        proof {
            assert(mid.keys().contains(key@) == before.open_at(key@, now));
        }
        let ok = current.count < self.max;
        let next = if ok {
            Attempt { count: current.count + 1, started: current.started }
        } else {
            current
        };
        self.attempts.insert(key, next);
        proof {
            assert forall|t: Seq<char>| #[trigger] self.keys().contains(t) <==> (t == key@ || before.open_at(t, now)) by {
                assert(self.keys().contains(t) == (t == key@ || mid.keys().contains(t)));
            }
            assert forall|t: Seq<char>| t != key@ && #[trigger] self.keys().contains(t) implies self.count(t)
                == before.count(t) && self.started(t) == before.started(t) by {
                assert(mid.keys().contains(t));
            }
        }
        ok
    }

    /// `true` if the attempt is allowed: `check_at` at the current time on
    /// the limiter's clock. A key with no window yet is allowed whenever
    /// `max` is not zero, whatever the time.
    pub fn check(&mut self, key: &str) -> (ok: bool)
        requires
            old(self).wf(),
        ensures
            final(self).wf(),
            exists|now: u128| checked(*old(self), *final(self), key@, now, ok),
            !old(self).keys().contains(key@) ==> ok == (old(self).max() > 0),
            final(self).keys().contains(key@),
    {
        let now = millis_since(&self.origin);
        self.check_at(key, now)
    }
}

} // verus!
