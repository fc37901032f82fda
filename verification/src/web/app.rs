//! The login flow's decisions: the session cookie, which client a login
//! attempt is charged to, the CSRF check and the outcome of an attempt.
use vstd::prelude::*;
use crate::text::{chars_eq, chars_of, split_char_exec, str_eq, string_of, trim};
use crate::web::auth::{verify_password, RateLimiter, SessionStore};

verus! {

#[verifier::external_type_specification]
#[verifier::external_body]
pub struct ExPathBuf(std::path::PathBuf);

/// Web frontend for the scraper.
pub struct WebArgs {
    /// Address to bind. Defaults to loopback so an unconfigured run is not
    /// reachable off-box; set explicitly for a deployment that needs to
    /// listen on all interfaces.
    pub bind: String,
    /// Path to the admin credential file. Deliberately not in config.json,
    /// which this service can rewrite.
    pub auth_file: std::path::PathBuf,
    /// Path to the scraper configuration this service edits.
    pub config_file: std::path::PathBuf,
    /// Set the Secure flag on the session cookie. Off by default because a
    /// deployment may terminate TLS at a proxy and reach this service over
    /// plain HTTP.
    pub secure_cookies: bool,
    /// Prompt for a new admin password, write it, and exit.
    pub set_password: bool,
    /// Trust `X-Forwarded-For` for the client address used by login rate
    /// limiting. Off by default: the header is client-controlled.
    pub trust_forwarded_for: bool,
}

/// The name of the session cookie.
pub open spec fn session_cookie_name() -> Seq<char> {
    "scraper_session"@
}

/// The position of the first `c` in `s`, if any.
pub open spec fn first_index(s: Seq<char>, c: char) -> Option<int>
    decreases s.len(),
{
    if s.len() == 0 {
        None
    } else if s[0] == c {
        Some(0)
    } else {
        match first_index(s.drop_first(), c) {
            Some(i) => Some(i + 1),
            None => None,
        }
    }
}

/// The value of the first cookie named `name` among `pieces`: each piece
/// trimmed and cut at its first `=`; a piece without `=` is no cookie.
pub open spec fn first_cookie(pieces: Seq<Seq<char>>, name: Seq<char>) -> Option<Seq<char>>
    decreases pieces.len(),
{
    if pieces.len() == 0 {
        None
    } else {
        let t = crate::text::trim_spaces(pieces[0]);
        match first_index(t, '=') {
            Some(i) => if t.take(i) == name {
                Some(t.skip(i + 1))
            } else {
                first_cookie(pieces.drop_first(), name)
            },
            None => first_cookie(pieces.drop_first(), name),
        }
    }
}

/// The value of the session cookie in a `Cookie` header.
pub open spec fn session_cookie_value(header: Seq<char>) -> Option<Seq<char>> {
    first_cookie(crate::text::split_char(header, ';'), session_cookie_name())
}

fn find_char(v: &Vec<char>, c: char) -> (r: Option<usize>)
    ensures
        match r {
            Some(i) => first_index(v@, c) == Some(i as int) && i < v@.len(),
            None => first_index(v@, c) is None,
        },
{
    let mut i: usize = 0;
    proof {
        assert(v@.skip(0) == v@);
    }
    while i < v.len()
        invariant
            i <= v@.len(),
            forall|k: int| 0 <= k < i ==> v@[k] != c,
            first_index(v@, c) == match first_index(v@.skip(i as int), c) {
                Some(j) => Some(j + i),
                None => None::<int>,
            },
        decreases v.len() - i,
    {
        if v[i] == c {
            return Some(i);
        }
        proof {
            assert(v@.skip(i as int).drop_first() == v@.skip(i + 1));
        }
        i = i + 1;
    }
    None
}

/// Extract the session cookie's value from a request's `Cookie` header.
pub fn session_token(cookie_header: &str) -> (r: Option<String>)
    ensures
        match r {
            Some(v) => session_cookie_value(cookie_header@) == Some(v@),
            None => session_cookie_value(cookie_header@) is None,
        },
{
    let chars = chars_of(cookie_header);
    let pieces = split_char_exec(&chars, ';');
    let name = chars_of("scraper_session");
    let ghost all = crate::text::split_char(chars@, ';');
    let mut k: usize = 0;
    proof {
        assert(all.skip(0) == all);
    }
    while k < pieces.len()
        invariant
            k <= pieces@.len(),
            all == crate::text::split_char(cookie_header@, ';'),
            pieces@.len() == all.len(),
            forall|j: int| 0 <= j < pieces@.len() ==> #[trigger] pieces@[j]@ == all[j],
            name@ == session_cookie_name(),
            first_cookie(all, session_cookie_name()) == first_cookie(all.skip(k as int), session_cookie_name()),
        decreases pieces.len() - k,
    {
        let ghost rest = all.skip(k as int);
        proof {
            assert(rest[0] == all[k as int]);
            assert(rest.drop_first() == all.skip(k + 1));
        }
        let piece = string_of(&pieces[k]);
        let t = trim(piece.as_str());
        let tc = chars_of(t.as_str());
        proof {
            assert(pieces@[k as int]@ == all[k as int]);
            assert(tc@ == crate::text::trim_spaces(rest[0]));
        }
        match find_char(&tc, '=') {
            Some(i) => {
                assert(i < tc.len());
                let mut key: Vec<char> = Vec::new();
                let mut j: usize = 0;
                while j < i
                    invariant
                        j <= i < tc@.len(),
                        key@ == tc@.take(j as int),
                    decreases i - j,
                {
                    key.push(tc[j]);
                    proof {
                        assert(tc@.take(j + 1) == tc@.take(j as int).push(tc@[j as int]));
                    }
                    j = j + 1;
                }
                if chars_eq(&key, &name) {
                    let mut value: Vec<char> = Vec::new();
                    let mut m: usize = i + 1;
                    while m < tc.len()
                        invariant
                            i + 1 <= m <= tc@.len(),
                            value@ == tc@.subrange(i + 1, m as int),
                        decreases tc.len() - m,
                    {
                        value.push(tc[m]);
                        proof {
                            assert(tc@.subrange(i + 1, m + 1) == tc@.subrange(i + 1, m as int).push(tc@[m as int]));
                        }
                        m = m + 1;
                    }
                    proof {
                        assert(tc@.subrange(i + 1, tc@.len() as int) == tc@.skip(i + 1));
                        assert(tc@.take(i as int) == key@);
                        assert(first_cookie(rest, session_cookie_name()) == Some(tc@.skip(i + 1)));
                    }
                    return Some(string_of(&value));
                }
            },
            None => {},
        }
        k = k + 1;
    }
    proof {
        assert(all.skip(pieces@.len() as int).len() == 0);
    }
    None
}

/// The client a login attempt is charged to: the first address of
/// `X-Forwarded-For`, trimmed, when that header is trusted and present,
/// else the peer's address.
pub open spec fn rate_limit_key(trust_forwarded_for: bool, forwarded_for: Option<Seq<char>>, peer_ip: Seq<char>) -> Seq<
    char,
> {
    match forwarded_for {
        Some(f) => if trust_forwarded_for {
            crate::text::trim_spaces(crate::text::split_char(f, ',')[0])
        } else {
            peer_ip
        },
        None => peer_ip,
    }
}

/// The peer address cannot be forged by the client. X-Forwarded-For can, so
/// it is consulted only when the operator has asserted a proxy overwrites
/// it. Keyed on the IP, not the full socket address — the source port
/// changes per connection.
pub fn client_key(trust_forwarded_for: bool, forwarded_for: Option<&str>, peer_ip: &str) -> (key: String)
    ensures
        key@ == rate_limit_key(trust_forwarded_for, match forwarded_for {
            Some(f) => Some(f@),
            None => None,
        }, peer_ip@),
{
    match forwarded_for {
        Some(f) => if trust_forwarded_for {
            let chars = chars_of(f);
            let parts = split_char_exec(&chars, ',');
            proof {
                crate::text::lemma_split_char_nonempty(chars@, ',');
            }
            let first = string_of(&parts[0]);
            trim(first.as_str())
        } else {
            peer_ip.to_string()
        },
        None => peer_ip.to_string(),
    }
}

/// The `Set-Cookie` value that opens a session.
pub open spec fn session_cookie(token: Seq<char>, secure: bool) -> Seq<char> {
    "scraper_session="@ + token + "; HttpOnly; SameSite=Strict; Path=/"@ + if secure {
        "; Secure"@
    } else {
        Seq::empty()
    }
}

/// The session cookie for `token`: not readable by scripts, never sent
/// cross-site, and `Secure` when the service is reached over TLS.
pub fn session_cookie_for(token: &str, secure: bool) -> (c: String)
    ensures
        c@ == session_cookie(token@, secure),
{
    let mut c = String::from_str("scraper_session=");
    c.append(token);
    c.append("; HttpOnly; SameSite=Strict; Path=/");
    if secure {
        c.append("; Secure");
    }
    c
}

/// The `Set-Cookie` value that ends a session.
pub open spec fn logout_cookie() -> Seq<char> {
    "scraper_session=; HttpOnly; SameSite=Strict; Path=/; Max-Age=0"@
}

pub fn logout_cookie_value() -> (c: &'static str)
    ensures
        c@ == logout_cookie(),
{
    "scraper_session=; HttpOnly; SameSite=Strict; Path=/; Max-Age=0"
}

/// Whether a state-changing request carries its session's CSRF token: the
/// session has a non-empty one and the request supplies exactly it.
pub fn csrf_ok(expected: &Option<String>, supplied: &str) -> (ok: bool)
    ensures
        ok == match expected {
            Some(t) => t@.len() > 0 && t@ == supplied@,
            None => false,
        },
{
    match expected {
        Some(t) => !t.as_str().is_empty() && str_eq(t.as_str(), supplied),
        None => false,
    }
}

/// How a login attempt ends.
pub enum LoginOutcome {
    /// The client has used up its attempts for now.
    TooManyAttempts,
    /// The password does not match the credential.
    WrongPassword,
    /// A session was opened; `cookie` carries its token.
    SignedIn { token: String, cookie: String },
}

/// Whether the rate limit let an attempt through.
pub open spec fn admitted(outcome: LoginOutcome) -> bool {
    !(outcome is TooManyAttempts)
}

/// A login attempt by `client` with `password`: charged to the client's
/// rate limit first, then checked against the stored credential; a match
/// opens a session.
pub fn login_attempt(
    limiter: &mut RateLimiter,
    sessions: &mut SessionStore,
    credential: &str,
    client: &str,
    password: &str,
    secure_cookies: bool,
) -> (outcome: LoginOutcome)
    requires
        old(limiter).wf(),
        old(sessions).wf(),
    ensures
        final(limiter).wf(),
        final(sessions).wf(),
        final(limiter).keys().contains(client@),
        exists|now: u128| #[trigger] crate::web::auth::checked(*old(limiter), *final(limiter), client@, now, admitted(outcome)),
        !old(limiter).keys().contains(client@) ==> (outcome is TooManyAttempts <==> old(limiter).max() == 0),
        outcome is WrongPassword ==> !crate::web::auth::argon2_accepts(password@, credential@),
        !(outcome is TooManyAttempts) && crate::web::auth::argon2_accepts(password@, credential@) ==> outcome is SignedIn,
        outcome matches LoginOutcome::SignedIn { token, cookie } ==> {
            &&& crate::web::auth::argon2_accepts(password@, credential@)
            &&& final(sessions).tokens().contains(token@)
            &&& cookie@ == session_cookie(token@, secure_cookies)
        },
        !(outcome is SignedIn) ==> *final(sessions) == *old(sessions),
{
    let ghost before = *limiter;
    let ok = limiter.check(client);
    let ghost now = choose|now: u128| crate::web::auth::checked(before, *limiter, client@, now, ok);
    if !ok {
        let outcome = LoginOutcome::TooManyAttempts;
        proof {
            assert(crate::web::auth::checked(before, *limiter, client@, now, admitted(outcome)));
        }
        return outcome;
    }
    if !verify_password(password, credential) {
        let outcome = LoginOutcome::WrongPassword;
        proof {
            assert(crate::web::auth::checked(before, *limiter, client@, now, admitted(outcome)));
        }
        return outcome;
    }
    let token = sessions.create();
    let cookie = session_cookie_for(token.as_str(), secure_cookies);
    let outcome = LoginOutcome::SignedIn { token, cookie };
    proof {
        assert(crate::web::auth::checked(before, *limiter, client@, now, admitted(outcome)));
    }
    outcome
}

/// The message given when a new admin password is too short.
pub open spec fn short_password_message() -> Seq<char> {
    "password must be at least 12 characters"@
}

/// The length of a text in bytes, as `str::len` reports it.
pub open spec fn byte_len(s: Seq<char>) -> usize {
    vstd::utf8::encode_utf8(s).len() as usize
}

/// A new admin password, as typed: trimmed, and refused when shorter than
/// 12 bytes.
pub fn admin_password(input: &str) -> (r: Result<String, String>)
    ensures
        match r {
            Ok(p) => p@ == crate::text::trim_spaces(input@) && byte_len(p@) >= 12,
            Err(m) => byte_len(crate::text::trim_spaces(input@)) < 12 && m@ == short_password_message(),
        },
{
    let plain = trim(input);
    if plain.as_str().len() < 12 {
        return Err(String::from_str("password must be at least 12 characters"));
    }
    Ok(plain)
}

} // verus!
