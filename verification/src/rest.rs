//! Decisions of the Snowflake REST API: logins, how a query request is run, and the
//! summary of a successful query's response.
use vstd::prelude::*;
use crate::sessions::{Claims, jwt_claims, timestamp_in_range, is_uuid_v4_text, new_session_id};
use crate::text::{str_eq, str_to_lowercase, lower_seq};
use crate::convert::DataSerializationFormat;
use base64::Engine;

verus! {

/// How long a REST API token lasts, in seconds: three days.
pub const JWT_TOKEN_EXPIRATION_SECONDS: u32 = 3 * 24 * 60 * 60;

/// Why a REST API request is refused.
#[derive(Clone, Copy, Debug, PartialEq, Eq, Structural)]
pub enum RestError {
    /// The login name or password is not the configured one.
    InvalidAuthData,
    /// No secret to sign tokens with is configured.
    NoJwtSecret,
    /// Asynchronous execution was asked for.
    NotImplemented,
}

/// The claims of the token a login is answered with: the login name and password must be
/// the configured ones and a signing secret must be set; the token is for the host the
/// request was sent to, lasts three days and names a new session.
pub fn login_claims(
    login_name: &str,
    password: &str,
    demo_user: &str,
    demo_password: &str,
    jwt_secret: &str,
    host: &str,
) -> (r: Result<Claims, RestError>)
    ensures
        (login_name@ != demo_user@ || password@ != demo_password@) ==> r == Err::<Claims, RestError>(
            RestError::InvalidAuthData,
        ),
        (login_name@ == demo_user@ && password@ == demo_password@ && jwt_secret@.len() == 0) ==> r
            == Err::<Claims, RestError>(RestError::NoJwtSecret),
        r is Ok <==> (login_name@ == demo_user@ && password@ == demo_password@ && jwt_secret@.len() > 0),
        r matches Ok(c) ==> {
            &&& c.sub@ == login_name@
            &&& c.aud@ == host@
            &&& timestamp_in_range(c.iat as int)
            &&& c.exp == c.iat + 259200
            &&& is_uuid_v4_text(c.session_id@)
        },
{
    if !str_eq(login_name, demo_user) || !str_eq(password, demo_password) {
        return Err(RestError::InvalidAuthData);
    }
    if jwt_secret.is_empty() {
        return Err(RestError::NoJwtSecret);
    }
    Ok(jwt_claims(login_name, host, JWT_TOKEN_EXPIRATION_SECONDS as i64))
}

/// The session a plain login opens: the login name and password must be the configured
/// ones; the session's new identifier is the token.
pub fn login_session_id(login_name: &str, password: &str, demo_user: &str, demo_password: &str) -> (r: Result<
    String,
    RestError,
>)
    ensures
        r is Ok <==> (login_name@ == demo_user@ && password@ == demo_password@),
        r matches Err(e) ==> e == RestError::InvalidAuthData,
        r matches Ok(s) ==> is_uuid_v4_text(s@),
{
    if !str_eq(login_name, demo_user) || !str_eq(password, demo_password) {
        return Err(RestError::InvalidAuthData);
    }
    Ok(new_session_id())
}

/// How a query request is served.
#[derive(Debug, PartialEq, Eq)]
pub enum QueryStep<Q> {
    /// Refused: asynchronous execution is not implemented.
    NotImplemented,
    /// A retry of a query still known: wait for that query's result.
    WaitFor(Q),
    /// Run the query anew.
    Run,
}

/// How a query request is served, given whether it asks for asynchronous execution, its
/// retry count, and the running query found for its request id, if any.
pub fn plan_query_request<Q>(async_exec: bool, retry_count: Option<u64>, located: Option<Q>) -> (r: QueryStep<Q>)
    ensures
        async_exec ==> r == QueryStep::<Q>::NotImplemented,
        !async_exec ==> match located {
            Some(q) => if retry_count matches Some(n) && n > 0 {
                r == QueryStep::WaitFor(q)
            } else {
                r == QueryStep::<Q>::Run
            },
            None => r == QueryStep::<Q>::Run,
        },
{
    if async_exec {
        return QueryStep::NotImplemented;
    }
    let retries = match retry_count {
        Some(n) => n,
        None => 0,
    };
    match located {
        Some(q) => if retries > 0 {
            QueryStep::WaitFor(q)
        } else {
            QueryStep::Run
        },
        None => QueryStep::Run,
    }
}

/// A row count as an `i64`, the largest `i64` where it does not fit.
pub open spec fn clamped_count(n: usize) -> int {
    if n <= i64::MAX {
        n as int
    } else {
        i64::MAX as int
    }
}

/// The total of the clamped row counts.
pub open spec fn row_total(counts: Seq<usize>) -> int
    decreases counts.len(),
{
    if counts.len() == 0 {
        0
    } else {
        row_total(counts.drop_last()) + clamped_count(counts.last())
    }
}

proof fn lemma_row_total_prefix(counts: Seq<usize>, k: int)
    requires
        0 <= k <= counts.len(),
    ensures
        0 <= row_total(counts.take(k)) <= row_total(counts),
    decreases counts.len() - k,
{
    if k < counts.len() {
        lemma_row_total_prefix(counts, k + 1);
        assert(counts.take(k + 1).drop_last() == counts.take(k));
        lemma_row_total_nonneg(counts.take(k));
    } else {
        assert(counts.take(k) == counts);
        lemma_row_total_nonneg(counts);
    }
}

proof fn lemma_row_total_nonneg(counts: Seq<usize>)
    ensures
        row_total(counts) >= 0,
    decreases counts.len(),
{
    if counts.len() > 0 {
        lemma_row_total_nonneg(counts.drop_last());
    }
}

/// The number of rows of a result, from the row counts of its batches.
pub fn total_rows(counts: &Vec<usize>) -> (r: i64)
    requires
        row_total(counts@) <= i64::MAX,
    ensures
        r == row_total(counts@),
{
    let mut total: i64 = 0;
    let mut i: usize = 0;
    while i < counts.len()
        invariant
            i <= counts@.len(),
            total == row_total(counts@.take(i as int)),
            row_total(counts@) <= i64::MAX,
        decreases counts@.len() - i,
    {
        proof {
            lemma_row_total_prefix(counts@, i as int + 1);
            assert(counts@.take(i as int + 1).drop_last() == counts@.take(i as int));
        }
        let n = counts[i];
        let c: i64 = if (n as u64) <= (i64::MAX as u64) { n as i64 } else { i64::MAX };
        total = total + c;
        i = i + 1;
    }
    proof {
        assert(counts@.take(counts@.len() as int) == counts@);
    }
    total
}

/// The character of a six-bit value in the standard base64 alphabet.
pub open spec fn base64_char(v: int) -> char {
    if v < 26 {
        (('A' as int) + v) as char
    } else if v < 52 {
        (('a' as int) + v - 26) as char
    } else if v < 62 {
        (('0' as int) + v - 52) as char
    } else if v == 62 {
        '+'
    } else {
        '/'
    }
}

/// The standard base64 text of bytes, padded with `=` (RFC 4648).
pub open spec fn base64_text(b: Seq<u8>) -> Seq<char>
    decreases b.len(),
{
    if b.len() == 0 {
        Seq::empty()
    } else if b.len() == 1 {
        seq![base64_char(b[0] as int / 4), base64_char((b[0] as int % 4) * 16), '=', '=']
    } else if b.len() == 2 {
        seq![
            base64_char(b[0] as int / 4),
            base64_char((b[0] as int % 4) * 16 + b[1] as int / 16),
            base64_char((b[1] as int % 16) * 4),
            '=',
        ]
    } else {
        seq![
            base64_char(b[0] as int / 4),
            base64_char((b[0] as int % 4) * 16 + b[1] as int / 16),
            base64_char((b[1] as int % 16) * 4 + b[2] as int / 64),
            base64_char(b[2] as int % 64),
        ] + base64_text(b.skip(3))
    }
}

/// base64's `STANDARD` engine `encode`: the standard alphabet, padded with `=`.
#[verifier::external_body]
fn base64_encode(bytes: &Vec<u8>) -> (r: String)
    ensures
        r@ == base64_text(bytes@),
{
    base64::engine::general_purpose::STANDARD.encode(bytes)
}

/// The summary of a successful query's response.
#[derive(Debug)]
pub struct QueryResponse {
    /// `json` or `arrow`.
    pub query_result_format: String,
    /// The rows as JSON text, for the JSON format.
    pub row_set: Option<String>,
    /// The rows as base64 of an Arrow IPC stream, for the Arrow format.
    pub row_set_base_64: Option<String>,
    /// The number of rows.
    pub total: i64,
    /// The number of rows returned: all of them.
    pub returned: i64,
    /// The query's identifier.
    pub query_id: String,
    pub success: bool,
    pub message: String,
}

/// The response to a successful query: its format's name in lower case, the rows in the
/// form of that format (the JSON text for JSON, the base64 of the Arrow IPC stream for
/// Arrow), and the row count as both the total and the returned count.
pub fn query_ok_response(
    format: DataSerializationFormat,
    row_counts: &Vec<usize>,
    json_rows: Option<String>,
    arrow_ipc: Option<Vec<u8>>,
    query_id: String,
) -> (r: QueryResponse)
    requires
        row_total(row_counts@) <= i64::MAX,
    ensures
        r.query_result_format@ == lower_seq(format.spec_name()),
        format == DataSerializationFormat::Json ==> r.row_set == json_rows && r.row_set_base_64 is None,
        format == DataSerializationFormat::Arrow ==> r.row_set is None && match arrow_ipc {
            Some(b) => r.row_set_base_64 matches Some(t) && t@ == base64_text(b@),
            None => r.row_set_base_64 is None,
        },
        r.total == row_total(row_counts@),
        r.returned == r.total,
        r.query_id == query_id,
        r.success,
        r.message@ == "successfully executed"@,
{
    let total = total_rows(row_counts);
    let name = format.to_string();
    proof {
        reveal_strlit("Arrow");
        reveal_strlit("Json");
        assert(crate::text::ascii_seq(name@));
    }
    let query_result_format = str_to_lowercase(name.as_str());
    let (row_set, row_set_base_64) = match format {
        DataSerializationFormat::Json => (json_rows, None),
        DataSerializationFormat::Arrow => (
            None,
            match arrow_ipc {
                Some(b) => Some(base64_encode(&b)),
                None => None,
            },
        ),
    };
    QueryResponse {
        query_result_format,
        row_set,
        row_set_base_64,
        total,
        returned: total,
        query_id,
        success: true,
        message: "successfully executed".to_string(),
    }
}

} // verus!
