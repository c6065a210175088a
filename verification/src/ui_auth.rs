//! Authentication of the web UI: the claims of access and refresh tokens, the cookies a
//! request carries, the bearer token of its `Authorization` header, and the decisions of
//! the login, refresh, logout and account endpoints.
use vstd::prelude::*;
use crate::text::{split_seq, trim_seq, split_chars, trim_chars, chars_of, string_from_chars, has_prefix, starts_with, str_eq};
use crate::assoc::{keys_distinct, has_key, map_view, insert_entry, get_value};
use crate::sessions::{local_now_timestamp, timestamp_in_range, expiration_fits};
use crate::sql::texts;

verus! {

/// How long a refresh token lasts, in hours.
pub const REFRESH_TOKEN_EXPIRATION_HOURS: u32 = 24 * 7;

/// How long an access token lasts, in seconds.
pub const ACCESS_TOKEN_EXPIRATION_SECONDS: u32 = 15 * 60;

/// The cookie that carries the refresh token.
pub const REFRESH_COOKIE_NAME: &'static str = "refresh_token";

/// The claims of a UI token.
#[derive(Debug)]
pub struct Claims {
    /// The user the token was issued to.
    pub sub: String,
    /// The host the token is valid for.
    pub aud: String,
    /// When the token was issued, in Unix seconds.
    pub iat: i64,
    /// When the token expires, in Unix seconds.
    pub exp: i64,
}

/// Why an authentication request is refused.
#[derive(Clone, Copy, Debug, PartialEq, Eq, Structural)]
pub enum AuthError {
    /// The user name or password is not the configured one.
    Login,
    /// No secret to sign tokens with is configured.
    NoJwtSecret,
    /// The request has no refresh-token cookie.
    NoRefreshTokenCookie,
    /// The request has no `Authorization` header.
    NoAuthHeader,
    /// The `Authorization` header is unreadable or not a bearer token.
    BadAuthHeader,
}

/// The claims of a token issued at `now` that expires `expiration_seconds` later.
pub fn claims_at(username: &str, audience: &str, now: i64, expiration_seconds: i64) -> (c: Claims)
    requires
        i64::MIN <= now + expiration_seconds <= i64::MAX,
    ensures
        c.sub@ == username@,
        c.aud@ == audience@,
        c.iat == now,
        c.exp == now + expiration_seconds,
{
    Claims { sub: username.to_string(), aud: audience.to_string(), iat: now, exp: now + expiration_seconds }
}

/// The claims of a token for `username` on `audience`, issued now and expiring
/// `expiration_seconds` later.
pub fn jwt_claims(username: &str, audience: &str, expiration_seconds: i64) -> (c: Claims)
    requires
        expiration_fits(expiration_seconds as int),
    ensures
        c.sub@ == username@,
        c.aud@ == audience@,
        timestamp_in_range(c.iat as int),
        c.exp == c.iat + expiration_seconds,
{
    let now = local_now_timestamp();
    claims_at(username, audience, now, expiration_seconds)
}

/// The claims of an access token: it expires a quarter of an hour after it is issued.
pub fn access_token_claims(username: &str, audience: &str) -> (c: Claims)
    ensures
        c.sub@ == username@,
        c.aud@ == audience@,
        timestamp_in_range(c.iat as int),
        c.exp == c.iat + 900,
{
    jwt_claims(username, audience, ACCESS_TOKEN_EXPIRATION_SECONDS as i64)
}

/// The claims of a refresh token: it expires a week after it is issued.
pub fn refresh_token_claims(username: &str, audience: &str) -> (c: Claims)
    ensures
        c.sub@ == username@,
        c.aud@ == audience@,
        timestamp_in_range(c.iat as int),
        c.exp == c.iat + 604800,
{
    jwt_claims(username, audience, REFRESH_TOKEN_EXPIRATION_HOURS as i64 * 3600)
}

/// The name and value of one `name=value` piece of a `Cookie` header, its surrounding
/// white space dropped; a value ends at the next `=`.
pub open spec fn cookie_pair(piece: Seq<char>) -> (Seq<char>, Seq<char>) {
    let parts = split_seq(trim_seq(piece), '=');
    (parts[0], parts[1])
}

/// A piece of a `Cookie` header that has a `=`.
pub open spec fn cookie_piece_ok(piece: Seq<char>) -> bool {
    split_seq(trim_seq(piece), '=').len() >= 2
}

/// The name-value pairs of the pieces that have a `=`, in order; the others are skipped.
pub open spec fn pieces_pairs(pieces: Seq<Seq<char>>) -> Seq<(Seq<char>, Seq<char>)>
    decreases pieces.len(),
{
    if pieces.len() == 0 {
        Seq::empty()
    } else if cookie_piece_ok(pieces.last()) {
        pieces_pairs(pieces.drop_last()).push(cookie_pair(pieces.last()))
    } else {
        pieces_pairs(pieces.drop_last())
    }
}

/// The name-value pairs of one `Cookie` header, in order: a piece without `=` (such as the
/// empty piece after a trailing `;`) is skipped.
pub open spec fn header_pairs(h: Seq<char>) -> Seq<(Seq<char>, Seq<char>)> {
    pieces_pairs(split_seq(h, ';'))
}

/// The name-value pairs of several `Cookie` headers, in order.
pub open spec fn headers_pairs(hs: Seq<Seq<char>>) -> Seq<(Seq<char>, Seq<char>)>
    decreases hs.len(),
{
    if hs.len() == 0 {
        Seq::empty()
    } else {
        headers_pairs(hs.drop_last()) + header_pairs(hs.last())
    }
}

/// The map of name-value pairs, a later pair replacing an earlier one of the same name.
pub open spec fn pairs_map(ps: Seq<(Seq<char>, Seq<char>)>) -> Map<Seq<char>, Seq<char>>
    decreases ps.len(),
{
    if ps.len() == 0 {
        Map::empty()
    } else {
        pairs_map(ps.drop_last()).insert(ps.last().0, ps.last().1)
    }
}

/// The cookies of a request, from the texts of its `Cookie` headers: each header is split
/// at `;`, each piece trimmed and split at `=`, a piece without `=` skipped, and a later
/// cookie of a name replaces an earlier one.
pub fn cookies_from_header(headers: &Vec<String>) -> (r: Vec<(String, String)>)
    ensures
        keys_distinct(r@),
        map_view(r@) == pairs_map(headers_pairs(texts(headers@))),
{
    let mut r: Vec<(String, String)> = Vec::new();
    let mut i: usize = 0;
    proof {
        assert(map_view(r@) =~= Map::empty());
        assert(texts(headers@).take(0) =~= Seq::empty());
    }
    while i < headers.len()
        invariant
            i <= headers@.len(),
            keys_distinct(r@),
            map_view(r@) == pairs_map(headers_pairs(texts(headers@).take(i as int))),
        decreases headers@.len() - i,
    {
        let h = chars_of(headers[i].as_str());
        let pieces = split_chars(&h, ';');
        let ghost before = headers_pairs(texts(headers@).take(i as int));
        let ghost hp = header_pairs(headers@[i as int]@);
        let ghost sp = split_seq(h@, ';');
        let mut j: usize = 0;
        proof {
            assert(sp.take(0) =~= Seq::<Seq<char>>::empty());
            assert(before + pieces_pairs(sp.take(0)) =~= before);
        }
        while j < pieces.len()
            invariant
                j <= pieces@.len(),
                pieces@.len() == sp.len(),
                sp == split_seq(h@, ';'),
                forall|q: int| 0 <= q < pieces@.len() ==> (#[trigger] pieces@[q])@ == sp[q],
                h@ == headers@[i as int]@,
                hp == header_pairs(h@),
                keys_distinct(r@),
                map_view(r@) == pairs_map(before + pieces_pairs(sp.take(j as int))),
            decreases pieces@.len() - j,
        {
            let t = trim_chars(&pieces[j]);
            let parts = split_chars(&t, '=');
            proof {
                assert(sp.take(j + 1).drop_last() =~= sp.take(j as int));
                assert(sp.take(j + 1).last() == sp[j as int]);
            }
            if parts.len() >= 2 {
                let name = string_from_chars(parts[0].as_slice());
                let value = string_from_chars(parts[1].as_slice());
                proof {
                    assert(cookie_piece_ok(sp[j as int]));
                    let pp = pieces_pairs(sp.take(j as int));
                    assert(pieces_pairs(sp.take(j + 1)) == pp.push(cookie_pair(sp[j as int])));
                    assert((before + pp.push(cookie_pair(sp[j as int]))).drop_last() =~= before + pp);
                }
                insert_entry(&mut r, name, value);
            } else {
                proof {
                    assert(!cookie_piece_ok(sp[j as int]));
                }
            }
            j = j + 1;
        }
        proof {
            assert(sp.take(sp.len() as int) =~= sp);
            assert(texts(headers@).take(i as int + 1).drop_last() =~= texts(headers@).take(i as int));
            assert(texts(headers@).take(i as int + 1).last() == headers@[i as int]@);
        }
        i = i + 1;
    }
    proof {
        assert(texts(headers@).take(headers@.len() as int) =~= texts(headers@));
    }
    r
}

/// The token of an `Authorization: Bearer <token>` header.
pub open spec fn bearer_token(header: Option<Option<Seq<char>>>) -> Result<Seq<char>, AuthError> {
    match header {
        None => Err(AuthError::NoAuthHeader),
        Some(None) => Err(AuthError::BadAuthHeader),
        Some(Some(text)) => if has_prefix(text, "Bearer "@) {
            Ok(text.skip(7))
        } else {
            Err(AuthError::BadAuthHeader)
        },
    }
}

/// The bearer token of a request, from its `Authorization` header: `None` where there is
/// no such header, `Some(None)` where its value is not readable text.
pub fn get_authorization_token(header: &Option<Option<String>>) -> (r: Result<String, AuthError>)
    ensures
        r matches Ok(t) ==> bearer_token(opt_texts(*header)) == Ok::<Seq<char>, AuthError>(t@),
        r matches Err(e) ==> bearer_token(opt_texts(*header)) == Err::<Seq<char>, AuthError>(e),
{
    match header {
        None => Err(AuthError::NoAuthHeader),
        Some(None) => Err(AuthError::BadAuthHeader),
        Some(Some(text)) => {
            proof {
                reveal_strlit("Bearer ");
            }
            if starts_with(text.as_str(), "Bearer ") {
                let cs = chars_of(text.as_str());
                let mut rest: Vec<char> = Vec::new();
                let mut i: usize = 7;
                while i < cs.len()
                    invariant
                        7 <= i <= cs@.len(),
                        rest@ == cs@.subrange(7, i as int),
                    decreases cs@.len() - i,
                {
                    rest.push(cs[i]);
                    i = i + 1;
                }
                proof {
                    assert(cs@.subrange(7, cs@.len() as int) =~= text@.skip(7));
                }
                Ok(string_from_chars(rest.as_slice()))
            } else {
                Err(AuthError::BadAuthHeader)
            }
        },
    }
}

/// The texts of an optional optional string.
pub open spec fn opt_texts(h: Option<Option<String>>) -> Option<Option<Seq<char>>> {
    match h {
        None => None,
        Some(None) => Some(None),
        Some(Some(s)) => Some(Some(s@)),
    }
}

/// Whether requests need a token: only where a signing secret, a user and a password are
/// all configured.
pub fn auth_required(jwt_secret: &str, demo_user: &str, demo_password: &str) -> (r: bool)
    ensures
        r == (jwt_secret@.len() > 0 && demo_user@.len() > 0 && demo_password@.len() > 0),
{
    !(jwt_secret.is_empty() || demo_user.is_empty() || demo_password.is_empty())
}

/// The claims of the access and refresh tokens a login is answered with: the user name
/// and password must be the configured ones, and a signing secret must be set.
pub fn login_claims(
    username: &str,
    password: &str,
    demo_user: &str,
    demo_password: &str,
    jwt_secret: &str,
    audience: &str,
) -> (r: Result<(Claims, Claims), AuthError>)
    ensures
        (username@ != demo_user@ || password@ != demo_password@) ==> r == Err::<(Claims, Claims), AuthError>(
            AuthError::Login,
        ),
        (username@ == demo_user@ && password@ == demo_password@ && jwt_secret@.len() == 0) ==> r
            == Err::<(Claims, Claims), AuthError>(AuthError::NoJwtSecret),
        r is Ok <==> (username@ == demo_user@ && password@ == demo_password@ && jwt_secret@.len() > 0),
        r matches Ok((a, f)) ==> {
            &&& a.sub@ == username@ && a.aud@ == audience@ && a.exp == a.iat + 900
            &&& f.sub@ == username@ && f.aud@ == audience@ && f.exp == f.iat + 604800
        },
{
    if !str_eq(username, demo_user) || !str_eq(password, demo_password) {
        return Err(AuthError::Login);
    }
    if jwt_secret.is_empty() {
        return Err(AuthError::NoJwtSecret);
    }
    let access = access_token_claims(username, audience);
    let refresh = refresh_token_claims(username, audience);
    Ok((access, refresh))
}

/// The refresh token a refresh request carries in its cookies.
pub fn refresh_cookie(jwt_secret: &str, headers: &Vec<String>) -> (r: Result<String, AuthError>)
    ensures
        jwt_secret@.len() == 0 ==> r == Err::<String, AuthError>(AuthError::NoJwtSecret),
        jwt_secret@.len() > 0 ==> {
            let m = pairs_map(headers_pairs(texts(headers@)));
            &&& (r is Ok <==> m.contains_key("refresh_token"@))
            &&& (r matches Ok(t) ==> t@ == m["refresh_token"@])
            &&& (r matches Err(e) ==> e == AuthError::NoRefreshTokenCookie)
        },
{
    if jwt_secret.is_empty() {
        return Err(AuthError::NoJwtSecret);
    }
    let cookies = cookies_from_header(headers);
    proof {
        reveal_strlit("refresh_token");
    }
    match get_value(&cookies, REFRESH_COOKIE_NAME) {
        Some(t) => Ok(t.clone()),
        None => Err(AuthError::NoRefreshTokenCookie),
    }
}

/// The refresh token a logout request carries in its cookies, if any; a logout without one
/// is not refused.
pub fn logout_refresh_token(jwt_secret: &str, headers: &Vec<String>) -> (r: Result<Option<String>, AuthError>)
    ensures
        jwt_secret@.len() == 0 ==> r == Err::<Option<String>, AuthError>(AuthError::NoJwtSecret),
        jwt_secret@.len() > 0 ==> {
            let m = pairs_map(headers_pairs(texts(headers@)));
            &&& r is Ok
            &&& (r matches Ok(o) ==> (o is Some <==> m.contains_key("refresh_token"@)))
            &&& (r matches Ok(Some(t)) ==> t@ == m["refresh_token"@])
        },
{
    if jwt_secret.is_empty() {
        return Err(AuthError::NoJwtSecret);
    }
    let cookies = cookies_from_header(headers);
    proof {
        reveal_strlit("refresh_token");
    }
    match get_value(&cookies, REFRESH_COOKIE_NAME) {
        Some(t) => Ok(Some(t.clone())),
        None => Ok(None),
    }
}

/// The user an account request is answered with: the configured user, where the request
/// has an `Authorization` header.
pub fn account_username(has_auth_header: bool, demo_user: &str) -> (r: Result<String, AuthError>)
    ensures
        has_auth_header ==> (r matches Ok(u) && u@ == demo_user@),
        !has_auth_header ==> r == Err::<String, AuthError>(AuthError::NoAuthHeader),
{
    if has_auth_header {
        Ok(demo_user.to_string())
    } else {
        Err(AuthError::NoAuthHeader)
    }
}

} // verus!
