use embucket::rest::{login_claims as rest_login_claims, login_session_id, plan_query_request, query_ok_response, total_rows, QueryStep, RestError, JWT_TOKEN_EXPIRATION_SECONDS};
use embucket::sessions::{propagate_session, SessionCookie, ensure_jwt_secret_is_valid, jwt_claims as session_jwt_claims, Host, SessionError};
use embucket::ui_auth::{
    access_token_claims, account_username, auth_required, cookies_from_header, get_authorization_token, login_claims,
    logout_refresh_token, refresh_cookie, refresh_token_claims, AuthError, ACCESS_TOKEN_EXPIRATION_SECONDS,
    REFRESH_COOKIE_NAME, REFRESH_TOKEN_EXPIRATION_HOURS,
};
use embucket::convert::DataSerializationFormat;
use std::collections::HashMap;

fn is_uuid_v4(s: &str) -> bool {
    let b: Vec<char> = s.chars().collect();
    b.len() == 36
        && b.iter().enumerate().all(|(i, c)| {
            if [8, 13, 18, 23].contains(&i) {
                *c == '-'
            } else {
                c.is_ascii_digit() || ('a'..='f').contains(c)
            }
        })
        && b[14] == '4'
        && "89ab".contains(b[19])
}

#[test]
fn empty_secret_is_not_valid() {
    assert_eq!(ensure_jwt_secret_is_valid(""), None);
    assert_eq!(ensure_jwt_secret_is_valid("s3cr3t"), Some("s3cr3t".to_string()));
}

#[test]
fn session_claims_expire_after_the_given_time_and_name_a_new_session() {
    let c = session_jwt_claims("user", "localhost:3000", 3600);
    assert_eq!(c.sub, "user");
    assert_eq!(c.aud, "localhost:3000");
    assert_eq!(c.exp - c.iat, 3600);
    assert!(is_uuid_v4(&c.session_id));
    let d = session_jwt_claims("user", "localhost:3000", 3600);
    assert_ne!(c.session_id, d.session_id);
}

#[test]
fn host_header_is_required() {
    assert_eq!(Host::from_header(None).map(|h| h.0), Err(SessionError::MissingHost));
    assert_eq!(Host::from_header(Some("example.com".to_string())).map(|h| h.0), Ok("example.com".to_string()));
}

#[test]
fn ui_token_lifetimes() {
    assert_eq!(ACCESS_TOKEN_EXPIRATION_SECONDS, 900);
    assert_eq!(REFRESH_TOKEN_EXPIRATION_HOURS, 168);
    let a = access_token_claims("u", "h");
    assert_eq!(a.exp - a.iat, 900);
    let r = refresh_token_claims("u", "h");
    assert_eq!(r.exp - r.iat, 604_800);
    assert_eq!((r.sub.as_str(), r.aud.as_str()), ("u", "h"));
}

#[test]
fn cookies_are_split_trimmed_and_later_ones_win() {
    let headers = vec!["a=1; refresh_token=abc ;b=2".to_string(), " a=3".to_string()];
    let cookies: HashMap<String, String> = cookies_from_header(&headers).into_iter().collect();
    assert_eq!(cookies.len(), 3);
    assert_eq!(cookies["a"], "3");
    assert_eq!(cookies[REFRESH_COOKIE_NAME], "abc");
    assert_eq!(cookies["b"], "2");
    let cookies: HashMap<String, String> = cookies_from_header(&vec!["k=v=w".to_string()]).into_iter().collect();
    assert_eq!(cookies["k"], "v");
}

#[test]
fn bearer_token_is_read_from_the_authorization_header() {
    assert_eq!(get_authorization_token(&None), Err(AuthError::NoAuthHeader));
    assert_eq!(get_authorization_token(&Some(None)), Err(AuthError::BadAuthHeader));
    assert_eq!(get_authorization_token(&Some(Some("Basic xyz".to_string()))), Err(AuthError::BadAuthHeader));
    assert_eq!(get_authorization_token(&Some(Some("Bearer tok.en".to_string()))), Ok("tok.en".to_string()));
    assert_eq!(get_authorization_token(&Some(Some("Bearer ".to_string()))), Ok(String::new()));
}

#[test]
fn auth_is_required_only_with_full_configuration() {
    assert!(auth_required("s", "u", "p"));
    assert!(!auth_required("", "u", "p"));
    assert!(!auth_required("s", "", "p"));
    assert!(!auth_required("s", "u", ""));
}

#[test]
fn ui_login_checks_credentials_then_secret() {
    assert!(matches!(login_claims("u", "bad", "u", "p", "s", "h"), Err(AuthError::Login)));
    assert!(matches!(login_claims("x", "p", "u", "p", "s", "h"), Err(AuthError::Login)));
    assert!(matches!(login_claims("u", "p", "u", "p", "", "h"), Err(AuthError::NoJwtSecret)));
    let (access, refresh) = login_claims("u", "p", "u", "p", "s", "h").unwrap();
    assert_eq!(access.exp - access.iat, 900);
    assert_eq!(refresh.exp - refresh.iat, 604_800);
}

#[test]
fn refresh_and_logout_read_the_refresh_cookie() {
    let with = vec!["refresh_token=r1".to_string()];
    let without = vec!["other=1".to_string()];
    assert_eq!(refresh_cookie("", &with), Err(AuthError::NoJwtSecret));
    assert_eq!(refresh_cookie("s", &with), Ok("r1".to_string()));
    assert_eq!(refresh_cookie("s", &without), Err(AuthError::NoRefreshTokenCookie));
    assert_eq!(logout_refresh_token("s", &with), Ok(Some("r1".to_string())));
    assert_eq!(logout_refresh_token("s", &without), Ok(None));
    assert_eq!(logout_refresh_token("", &without), Err(AuthError::NoJwtSecret));
}

#[test]
fn account_needs_an_authorization_header() {
    assert_eq!(account_username(true, "demo"), Ok("demo".to_string()));
    assert_eq!(account_username(false, "demo"), Err(AuthError::NoAuthHeader));
}

#[test]
fn rest_login_lasts_three_days() {
    assert_eq!(JWT_TOKEN_EXPIRATION_SECONDS, 259_200);
    assert_eq!(rest_login_claims("u", "x", "u", "p", "s", "h").err(), Some(RestError::InvalidAuthData));
    assert_eq!(rest_login_claims("u", "p", "u", "p", "", "h").err(), Some(RestError::NoJwtSecret));
    let c = rest_login_claims("u", "p", "u", "p", "s", "host:1").unwrap();
    assert_eq!(c.exp - c.iat, 259_200);
    assert_eq!(c.aud, "host:1");
    assert!(is_uuid_v4(&c.session_id));
    assert!(is_uuid_v4(&login_session_id("u", "p", "u", "p").unwrap()));
    assert_eq!(login_session_id("u", "q", "u", "p"), Err(RestError::InvalidAuthData));
}

#[test]
fn query_requests_are_retried_only_when_known() {
    assert_eq!(plan_query_request(true, None, Some(7)), QueryStep::NotImplemented);
    assert_eq!(plan_query_request(false, Some(1), Some(7)), QueryStep::WaitFor(7));
    assert_eq!(plan_query_request(false, Some(0), Some(7)), QueryStep::Run);
    assert_eq!(plan_query_request(false, None, Some(7)), QueryStep::Run);
    assert_eq!(plan_query_request::<u32>(false, Some(3), None), QueryStep::Run);
}

#[test]
fn response_counts_rows_and_encodes_arrow_rows_in_base64() {
    assert_eq!(total_rows(&vec![3, 0, 4]), 7);
    let r = query_ok_response(DataSerializationFormat::Json, &vec![2, 1], Some("[[1],[2],[3]]".to_string()), None, "q1".to_string());
    assert_eq!(r.query_result_format, "json");
    assert_eq!(r.row_set.as_deref(), Some("[[1],[2],[3]]"));
    assert_eq!(r.row_set_base_64, None);
    assert_eq!((r.total, r.returned), (3, 3));
    assert!(r.success);
    assert_eq!(r.message, "successfully executed");
    let r = query_ok_response(DataSerializationFormat::Arrow, &vec![1], None, Some(b"hello".to_vec()), "q2".to_string());
    assert_eq!(r.query_result_format, "arrow");
    assert_eq!(r.row_set, None);
    assert_eq!(r.row_set_base_64.as_deref(), Some("aGVsbG8="));
    assert_eq!(r.query_id, "q2");
}

#[test]
fn sessions_are_kept_while_alive_and_renewed_otherwise() {
    assert_eq!(propagate_session(Some("abc".to_string()), true), SessionCookie::Keep("abc".to_string()));
    match propagate_session(Some("abc".to_string()), false) {
        SessionCookie::Renew(id) => assert!(is_uuid_v4(&id)),
        other => panic!("unexpected {other:?}"),
    }
    assert!(matches!(propagate_session(None, true), SessionCookie::Renew(_)));
}

#[test]
fn malformed_cookie_pieces_are_skipped() {
    for header in ["a=b;", "a=b;flag", "flag; a=b ;;"] {
        let cookies: HashMap<String, String> = cookies_from_header(&vec![header.to_string()]).into_iter().collect();
        let expected: HashMap<String, String> = [("a".to_string(), "b".to_string())].into_iter().collect();
        assert_eq!(cookies, expected, "{header}");
    }
    assert!(cookies_from_header(&vec!["".to_string()]).is_empty());
}
