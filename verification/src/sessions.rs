//! Session tokens of the REST API: the claims a token carries, when it expires, the
//! session it names, and the host a request was sent to.
use vstd::prelude::*;

verus! {

/// A lower-case hexadecimal digit.
pub open spec fn is_lower_hex(c: char) -> bool {
    ('0' <= c && c <= '9') || ('a' <= c && c <= 'f')
}

/// The hyphenated lower-case text of a random (version 4) UUID, such as
/// `67e55044-10b1-426f-9247-bb680e5fe0c8`.
pub open spec fn is_uuid_v4_text(s: Seq<char>) -> bool {
    &&& s.len() == 36
    &&& forall|i: int|
        0 <= i < 36 ==> if i == 8 || i == 13 || i == 18 || i == 23 {
            #[trigger] s[i] == '-'
        } else {
            is_lower_hex(s[i])
        }
    &&& s[14] == '4'
    &&& (s[19] == '8' || s[19] == '9' || s[19] == 'a' || s[19] == 'b')
}

/// A Unix time in seconds that chrono can represent (its dates run from the year -262143
/// to the year 262142).
pub open spec fn timestamp_in_range(t: int) -> bool {
    -96465292 * 86400 <= t <= 95026236 * 86400 + 86399
}

/// An expiration, in seconds, whose expiry time fits in an `i64` from any representable
/// time.
pub open spec fn expiration_fits(expiration: int) -> bool {
    -9223372036854775808 + 96465292 * 86400 <= expiration <= 9223372036854775807 - (95026236
        * 86400 + 86399)
}

/// The current time as a Unix timestamp in seconds: chrono's `Local::now().timestamp()`.
/// Its value depends on the clock; the contract states only that it lies in the range of
/// times chrono represents, which `DateTime::timestamp` cannot leave.
#[verifier::external_body]
pub(crate) fn local_now_timestamp() -> (t: i64)
    ensures
        timestamp_in_range(t as int),
{
    chrono::offset::Local::now().timestamp()
}

/// A fresh session identifier: `uuid::Uuid::new_v4().to_string()`. Which identifier comes
/// back is random; the contract states only its form, the hyphenated lower-case text of a
/// version-4 UUID, as uuid's `LowerHex` formatting writes it.
#[verifier::external_body]
pub(crate) fn new_session_id() -> (s: String)
    ensures
        is_uuid_v4_text(s@),
{
    uuid::Uuid::new_v4().to_string()
}

/// The claims of a session token.
#[derive(Debug)]
pub struct Claims {
    /// The user the token was issued to.
    pub sub: String,
    /// The host the token is valid for.
    pub aud: String,
    /// When the token was issued, in Unix seconds.
    pub iat: i64,
    /// When the token expires, in Unix seconds.
    pub exp: i64,
    /// The session the token belongs to.
    pub session_id: String,
}

/// The claims of a token issued at `now` that expires `expiration_seconds` later.
pub fn claims_at(username: &str, audience: &str, now: i64, expiration_seconds: i64, session_id: String) -> (c: Claims)
    requires
        i64::MIN <= now + expiration_seconds <= i64::MAX,
    ensures
        c.sub@ == username@,
        c.aud@ == audience@,
        c.iat == now,
        c.exp == now + expiration_seconds,
        c.session_id == session_id,
{
    Claims {
        sub: username.to_string(),
        aud: audience.to_string(),
        iat: now,
        exp: now + expiration_seconds,
        session_id,
    }
}

/// The claims of a token for `username` on `audience`, issued now, expiring
/// `expiration_seconds` later, for a new session.
pub fn jwt_claims(username: &str, audience: &str, expiration_seconds: i64) -> (c: Claims)
    requires
        expiration_fits(expiration_seconds as int),
    ensures
        c.sub@ == username@,
        c.aud@ == audience@,
        timestamp_in_range(c.iat as int),
        c.exp == c.iat + expiration_seconds,
        is_uuid_v4_text(c.session_id@),
{
    let now = local_now_timestamp();
    let session_id = new_session_id();
    claims_at(username, audience, now, expiration_seconds, session_id)
}

/// The secret that signs tokens, if one is set: `None` for an empty secret.
pub fn ensure_jwt_secret_is_valid(jwt_secret: &str) -> (r: Option<String>)
    ensures
        r is None <==> jwt_secret@.len() == 0,
        r matches Some(s) ==> s@ == jwt_secret@,
{
    if jwt_secret.is_empty() {
        return None;
    }
    Some(jwt_secret.to_string())
}

/// Why a request is refused before it reaches a handler.
#[derive(Clone, Copy, Debug, PartialEq, Eq, Structural)]
pub enum SessionError {
    /// The request has no readable `Host` header.
    MissingHost,
}

/// The host a request was sent to.
#[derive(Debug)]
pub struct Host(pub String);

impl Host {
    /// The host from the request's `Host` header, given as its text where the header is
    /// present and readable.
    pub fn from_header(host: Option<String>) -> (r: Result<Host, SessionError>)
        ensures
            host is None ==> r == Err::<Host, SessionError>(SessionError::MissingHost),
            host matches Some(h) ==> (r matches Ok(Host(s)) && s == h),
    {
        match host {
            Some(h) => Ok(Host(h)),
            None => Err(SessionError::MissingHost),
        }
    }
}

/// The session a request runs in.
#[derive(Debug, PartialEq, Eq)]
pub enum SessionCookie {
    /// The session of the request's cookie, which is still alive.
    Keep(String),
    /// A new session, whose identifier is sent back in a `Set-Cookie` header.
    Renew(String),
}

/// The session a request runs in: the session its cookie names while that session is
/// alive, else a new one (also when the request has no session cookie).
pub fn propagate_session(token: Option<String>, session_exists: bool) -> (r: SessionCookie)
    ensures
        (token is Some && session_exists) ==> r == SessionCookie::Keep(token->0),
        !(token is Some && session_exists) ==> (r matches SessionCookie::Renew(id) && is_uuid_v4_text(id@)),
{
    match token {
        Some(t) => if session_exists {
            SessionCookie::Keep(t)
        } else {
            SessionCookie::Renew(new_session_id())
        },
        None => SessionCookie::Renew(new_session_id()),
    }
}

} // verus!
