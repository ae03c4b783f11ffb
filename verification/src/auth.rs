//! Session authentication pieces the runtime's RPC server leans on:
//! hashed session tokens, cookie-header lookup, the session-validity
//! predicate, and the login rate limiter.

use crate::hashing::{base32_nopad, base32_nopad_of, lower_of, lowercase, sha256, sha256_of};
use crate::text::str_eq;
use vstd::prelude::*;

verus! {

/// Authentication failures visible to callers.
#[derive(Debug, Clone, Copy, PartialEq, Eq, Structural)]
pub enum AuthError {
    /// No acceptable session accompanied the request.
    Unauthorized,
    /// Too many login attempts in a short window.
    RateLimited,
    /// A host-side fault while forming a response header.
    Unknown,
}

/// Something that names a session to be logged out.
pub trait AsLogoutSessionId {
    /// The hashed session id under which the session is stored.
    fn as_logout_session_id(self) -> String;
}

/// Witness that the sessions named by a logout request have been marked
/// logged out in the session store.
#[derive(Debug)]
pub struct HasLoggedOutSessions(());

impl HasLoggedOutSessions {
    /// Records that the store was updated for every named session.
    pub fn new() -> HasLoggedOutSessions {
        HasLoggedOutSessions(())
    }
}

/// Witness that the request carried a valid session.
#[derive(Debug, Clone, Copy)]
pub struct HasValidSession(());

/// Whether a stored session still admits requests at `now_ms`: it must
/// not be logged out, or its logout moment must still lie in the future.
///
/// The store's own filter mixes this test with the id match in a way that
/// would admit any future-logged-out session regardless of id; the safer
/// parenthesisation is used here: the id must match, and then this test
/// must pass.
pub open spec fn spec_session_admits(logged_out_ms: Option<i64>, now_ms: i64) -> bool {
    match logged_out_ms {
        None => true,
        Some(t) => t > now_ms,
    }
}

/// Whether a stored session row matches a presented session hash and
/// still admits requests at `now_ms`.
pub fn session_matches(
    row_id: &str,
    row_logged_out_ms: Option<i64>,
    session_hash: &str,
    now_ms: i64,
) -> (r: bool)
    ensures
        r == (row_id@ == session_hash@ && spec_session_admits(row_logged_out_ms, now_ms)),
{
    if !str_eq(row_id, session_hash) {
        return false;
    }
    match row_logged_out_ms {
        None => true,
        Some(t) => t > now_ms,
    }
}

impl HasValidSession {
    /// The outcome of the session-store update: a session is valid exactly
    /// when the store touched a row for it.
    pub fn from_session_outcome(rows_affected: u64) -> (r: Result<HasValidSession, AuthError>)
        ensures
            rows_affected > 0 ==> r is Ok,
            rows_affected == 0 ==> r == Err::<HasValidSession, AuthError>(AuthError::Unauthorized),
    {
        if rows_affected == 0 {
            Err(AuthError::Unauthorized)
        } else {
            Ok(HasValidSession(()))
        }
    }

    /// Admits a request bearing the local root cookie exactly when its
    /// value equals the token stored on the host.
    pub fn from_local(cookie_value: &str, local_token: &str) -> (r: Result<
        HasValidSession,
        AuthError,
    >)
        ensures
            cookie_value@ == local_token@ ==> r is Ok,
            cookie_value@ != local_token@ ==> r == Err::<HasValidSession, AuthError>(
                AuthError::Unauthorized,
            ),
    {
        if str_eq(cookie_value, local_token) {
            Ok(HasValidSession(()))
        } else {
            Err(AuthError::Unauthorized)
        }
    }
}

/// The two cookies a request may authenticate with: the local root
/// cookie's value and the session cookie's value, each the first of its
/// name in the header, tried in that order by the caller.
pub fn session_candidates(cookie_header: Option<&str>) -> (r: (Option<String>, Option<String>))
    ensures
        match cookie_header {
            None => r.0 is None && r.1 is None,
            Some(h) => match cookie_pairs_of(h@) {
                None => r.0 is None && r.1 is None,
                Some(pairs) => r.0.deep_view() == spec_find_cookie(pairs, "local"@)
                    && r.1.deep_view() == spec_find_cookie(pairs, "session"@),
            },
        },
{
    match cookie_header {
        None => (None, None),
        Some(h) => match parse_cookie_header(h) {
            None => (None, None),
            Some(pairs) => {
                let local = match find_cookie(&pairs, "local") {
                    Some(v) => Some(v.clone()),
                    None => None,
                };
                let session = match find_cookie(&pairs, "session") {
                    Some(v) => Some(v.clone()),
                    None => None,
                };
                (local, session)
            },
        },
    }
}

/// The hash under which a session token is stored: the SHA-256 digest of
/// the token's bytes, base-32 encoded without padding, in lower case.
pub open spec fn spec_session_hash(token: Seq<char>) -> Seq<char> {
    lower_of(base32_nopad_of(sha256_of(vstd::utf8::encode_utf8(token))))
}

/// A session token together with its stored hash.
#[derive(Debug)]
pub struct HashSessionToken {
    hashed: String,
    token: String,
}

impl HashSessionToken {
    /// The characters of the stored hash.
    pub closed spec fn hashed_view(&self) -> Seq<char> {
        self.hashed@
    }

    /// The characters of the bare token.
    pub closed spec fn token_view(&self) -> Seq<char> {
        self.token@
    }

    /// The hash always corresponds to the token.
    pub open spec fn wf(&self) -> bool {
        self.hashed_view() == spec_session_hash(self.token_view())
    }

    /// A fresh session token: sixteen random bytes, base-32 encoded in
    /// lower case, with its hash.
    pub fn new() -> (r: HashSessionToken)
        ensures
            r.wf(),
            exists|b: Seq<u8>|
                b.len() == 16 && r.token_view() == lower_of(#[trigger] base32_nopad_of(b)),
    {
        let bytes = random_bytes_16();
        let encoded = base32_nopad(bytes.as_slice());
        let token = lowercase(encoded.as_str());
        let hashed = Self::hash(token.as_str());
        let r = HashSessionToken { hashed, token };
        proof {
            assert(r.token_view() == lower_of(base32_nopad_of(bytes@)));
        }
        r
    }

    /// The token presented by a session cookie, with its hash.
    pub fn from_cookie(cookie_value: &str) -> (r: HashSessionToken)
        ensures
            r.wf(),
            r.token_view() == cookie_value@,
    {
        let token = cookie_value.to_owned();
        let hashed = Self::hash(cookie_value);
        HashSessionToken { hashed, token }
    }

    /// The session token of a request, from its cookie header: the value
    /// of the first cookie named `session`, or `Unauthorized` when the
    /// header is missing, unparsable, or carries no such cookie.
    pub fn from_request_parts(cookie_header: Option<&str>) -> (r: Result<
        HashSessionToken,
        AuthError,
    >)
        ensures
            match cookie_header {
                None => r == Err::<HashSessionToken, AuthError>(AuthError::Unauthorized),
                Some(h) => match cookie_pairs_of(h@) {
                    None => r == Err::<HashSessionToken, AuthError>(AuthError::Unauthorized),
                    Some(pairs) => match spec_find_cookie(pairs, "session"@) {
                        None => r == Err::<HashSessionToken, AuthError>(AuthError::Unauthorized),
                        Some(v) => r matches Ok(t) && t.wf() && t.token_view() == v,
                    },
                },
            },
    {
        match cookie_header {
            None => Err(AuthError::Unauthorized),
            Some(h) => match parse_cookie_header(h) {
                None => Err(AuthError::Unauthorized),
                Some(pairs) => match find_cookie(&pairs, "session") {
                    None => Err(AuthError::Unauthorized),
                    Some(v) => Ok(Self::from_cookie(v.as_str())),
                },
            },
        }
    }

    /// The stored hash of this token.
    pub fn hashed(&self) -> (r: &str)
        ensures
            r@ == self.hashed_view(),
    {
        self.hashed.as_str()
    }

    /// Consumes the token, leaving only its stored hash.
    pub fn as_hash(self) -> (r: String)
        ensures
            r@ == self.hashed_view(),
    {
        self.hashed
    }

    /// The cookie string that installs this token in a browser.
    pub fn cookie_string(&self) -> (r: String)
        ensures
            r@ == "session="@ + self.token_view()
                + "; Path=/; SameSite=Lax; Expires=Fri, 31 Dec 9999 23:59:59 GMT;"@,
    {
        let mut out = "session=".to_owned();
        out.append(self.token.as_str());
        out.append("; Path=/; SameSite=Lax; Expires=Fri, 31 Dec 9999 23:59:59 GMT;");
        out
    }

    /// The `Set-Cookie` header value that installs this token: the cookie
    /// string of `cookie_string`, validated by the header type.
    pub fn header_value(&self) -> (r: Result<http::HeaderValue, AuthError>)
        ensures
            r is Ok <==> header_value_admits(
                "session="@ + self.token_view()
                    + "; Path=/; SameSite=Lax; Expires=Fri, 31 Dec 9999 23:59:59 GMT;"@,
            ),
            r is Err ==> r == Err::<http::HeaderValue, AuthError>(AuthError::Unknown),
    {
        let s = self.cookie_string();
        match http::HeaderValue::from_str(s.as_str()) {
            Ok(v) => Ok(v),
            Err(_) => Err(AuthError::Unknown),
        }
    }

    /// Hashes a token for storage.
    fn hash(token: &str) -> (r: String)
        ensures
            r@ == spec_session_hash(token@),
    {
        let digest = sha256(token.as_bytes());
        let encoded = base32_nopad(digest.as_slice());
        lowercase(encoded.as_str())
    }
}

impl AsLogoutSessionId for HashSessionToken {
    /// Sessions are logged out under their stored hash.
    fn as_logout_session_id(self) -> String {
        self.hashed
    }
}

impl PartialEq for HashSessionToken {
    /// Tokens compare by their stored hash.
    fn eq(&self, other: &Self) -> (r: bool) {
        str_eq(self.hashed.as_str(), other.hashed.as_str())
    }
}

impl vstd::std_specs::cmp::PartialEqSpecImpl for HashSessionToken {
    open spec fn obeys_eq_spec() -> bool {
        true
    }

    open spec fn eq_spec(&self, other: &Self) -> bool {
        self.hashed_view() == other.hashed_view()
    }
}

/// The header value type of the http crate, carried opaquely.
#[verifier::external_type_specification]
#[verifier::external_body]
pub struct ExHeaderValue(http::HeaderValue);

/// The http crate's rejection of an invalid header value, carried
/// opaquely.
#[verifier::external_type_specification]
#[verifier::external_body]
pub struct ExInvalidHeaderValue(http::header::InvalidHeaderValue);

/// Whether the header type accepts a string as a header value: a
/// function of the characters alone.
pub uninterp spec fn header_value_admits(s: Seq<char>) -> bool;

/// Relies on http::HeaderValue::from_str: whether the characters are
/// acceptable in a header is that function's decision, and it depends
/// on the string alone.
pub assume_specification[ http::HeaderValue::from_str ](src: &str) -> (r: Result<
    http::HeaderValue,
    http::header::InvalidHeaderValue,
>)
    ensures
        r is Ok <==> header_value_admits(src@),
;

/// Relies on rand::random: sixteen bytes no caller can predict; nothing
/// further is promised of them.
#[verifier::external_body]
fn random_bytes_16() -> (r: Vec<u8>)
    ensures
        r@.len() == 16,
{
    rand::random::<[u8; 16]>().to_vec()
}

/// What parsing a cookie header yields: each cookie's name and value in
/// order, or nothing when the header is not a valid cookie string.
pub uninterp spec fn cookie_pairs_of(header: Seq<char>) -> Option<Seq<(Seq<char>, Seq<char>)>>;

/// Relies on basic_cookies::Cookie::parse, whose result is a function of
/// the header text alone, and on Cookie::get_name and Cookie::get_value,
/// which read the two fields of each parsed cookie.
#[verifier::external_body]
fn parse_cookie_header(header: &str) -> (r: Option<Vec<(String, String)>>)
    ensures
        r.deep_view() == cookie_pairs_of(header@),
{
    match basic_cookies::Cookie::parse(header) {
        Ok(cookies) => Some(
            cookies.iter().map(
                |c| (c.get_name().to_owned(), c.get_value().to_owned()),
            ).collect(),
        ),
        Err(_) => None,
    }
}

/// The value of the first cookie with the given name, if any.
pub open spec fn spec_find_cookie(pairs: Seq<(Seq<char>, Seq<char>)>, name: Seq<char>) -> Option<
    Seq<char>,
>
    decreases pairs.len(),
{
    if pairs.len() == 0 {
        None
    } else if pairs.first().0 == name {
        Some(pairs.first().1)
    } else {
        spec_find_cookie(pairs.drop_first(), name)
    }
}

/// Finds the first cookie with the given name.
pub fn find_cookie<'a>(pairs: &'a Vec<(String, String)>, name: &str) -> (r: Option<&'a String>)
    ensures
        match r {
            None => spec_find_cookie(pairs.deep_view(), name@) is None,
            Some(v) => spec_find_cookie(pairs.deep_view(), name@) == Some(v@),
        },
{
    let mut i: usize = 0;
    proof {
        assert(pairs.deep_view().skip(0) =~= pairs.deep_view());
    }
    while i < pairs.len()
        invariant
            0 <= i <= pairs.len(),
            spec_find_cookie(pairs.deep_view(), name@) == spec_find_cookie(
                pairs.deep_view().skip(i as int),
                name@,
            ),
        decreases pairs.len() - i,
    {
        proof {
            assert(pairs.deep_view().skip(i as int).first() == pairs.deep_view()[i as int]);
            assert(pairs.deep_view().skip(i as int).drop_first() =~= pairs.deep_view().skip(
                i as int + 1,
            ));
        }
        if str_eq(pairs[i].0.as_str(), name) {
            return Some(&pairs[i].1);
        }
        i = i + 1;
    }
    proof {
        assert(pairs.deep_view().skip(pairs.len() as int) =~= Seq::<(
            Seq<char>,
            Seq<char>,
        )>::empty());
    }
    None
}

/// The window within which repeated failed logins are counted.
pub const RATE_LIMIT_WINDOW_MS: u64 = 20000;

/// How many failed logins the window tolerates.
pub const RATE_LIMIT_MAX_ATTEMPTS: u64 = 3;

/// The login rate limiter: failed attempts within the current window, and
/// when the window began.
#[derive(Debug)]
pub struct RateLimiter {
    pub count: u64,
    pub window_start_ms: u64,
}

impl RateLimiter {
    /// A fresh limiter with an empty window.
    pub fn new(now_ms: u64) -> (r: RateLimiter)
        ensures
            r.count == 0,
            r.window_start_ms == now_ms,
    {
        RateLimiter { count: 0, window_start_ms: now_ms }
    }

    /// Whether a login attempt at `now_ms` must be refused: the window is
    /// still open and has already seen too many attempts.
    pub fn should_limit(&self, now_ms: u64) -> (r: bool)
        requires
            now_ms >= self.window_start_ms,
        ensures
            r == (now_ms - self.window_start_ms < RATE_LIMIT_WINDOW_MS && self.count
                >= RATE_LIMIT_MAX_ATTEMPTS),
    {
        now_ms - self.window_start_ms < RATE_LIMIT_WINDOW_MS && self.count
            >= RATE_LIMIT_MAX_ATTEMPTS
    }

    /// Records the outcome of a request: within the window a failure adds
    /// an attempt; past the window the count starts over. Either way a new
    /// window begins now.
    pub fn record(&mut self, now_ms: u64, response_was_error: bool)
        requires
            now_ms >= old(self).window_start_ms,
        ensures
            final(self).window_start_ms == now_ms,
            final(self).count == (if now_ms - old(self).window_start_ms < RATE_LIMIT_WINDOW_MS {
                if response_was_error && old(self).count < u64::MAX {
                    old(self).count + 1
                } else {
                    old(self).count as int
                }
            } else {
                0
            }),
    {
        if now_ms - self.window_start_ms < RATE_LIMIT_WINDOW_MS {
            if response_was_error && self.count < u64::MAX {
                self.count = self.count + 1;
            }
        } else {
            self.count = 0;
        }
        self.window_start_ms = now_ms;
    }
}

/// What the authentication middleware decides for one request.
#[derive(Debug, PartialEq, Eq, Structural)]
pub enum AuthGate {
    /// Hand the request on.
    Proceed,
    /// Refuse it: no valid session and the method demands one.
    RejectUnauthorized,
    /// Refuse it: a login attempt over the rate limit.
    RejectRateLimited,
}

/// The middleware's gate for one request: a valid session always passes;
/// without one, a method that demands authentication is refused, a login
/// attempt over the rate limit is refused, and anything else passes.
pub fn auth_gate(
    session_valid: bool,
    method_requires_auth: bool,
    is_login_method: bool,
    limited: bool,
) -> (r: AuthGate)
    ensures
        session_valid ==> r == AuthGate::Proceed,
        !session_valid && method_requires_auth ==> r == AuthGate::RejectUnauthorized,
        !session_valid && !method_requires_auth && is_login_method && limited ==> r
            == AuthGate::RejectRateLimited,
        !session_valid && !method_requires_auth && !(is_login_method && limited) ==> r
            == AuthGate::Proceed,
{
    if session_valid {
        AuthGate::Proceed
    } else if method_requires_auth {
        AuthGate::RejectUnauthorized
    } else if is_login_method && limited {
        AuthGate::RejectRateLimited
    } else {
        AuthGate::Proceed
    }
}

} // verus!
