//! The context a query runs in: its database and schema, the worksheet and request it
//! comes from, and the client's address.
use vstd::prelude::*;

verus! {

/// The context of a query.
#[derive(Debug, Clone, PartialEq, Eq)]
pub struct QueryContext {
    pub database: Option<String>,
    pub schema: Option<String>,
    pub worksheet_id: Option<i64>,
    pub query_id: i64,
    /// The request the query was sent in, by its UUID text.
    pub request_id: Option<String>,
    pub ip_address: Option<String>,
    pub async_query: bool,
}

impl QueryContext {
    /// A context with the given database, schema and worksheet, the default query id, no
    /// request or address, run synchronously.
    pub fn new(database: Option<String>, schema: Option<String>, worksheet_id: Option<i64>) -> (r: QueryContext)
        ensures
            r.database == database,
            r.schema == schema,
            r.worksheet_id == worksheet_id,
            r.query_id == 0,
            r.request_id is None,
            r.ip_address is None,
            !r.async_query,
    {
        QueryContext { database, schema, worksheet_id, query_id: 0, request_id: None, ip_address: None, async_query: false }
    }

    /// The same context under another query id.
    pub fn with_query_id(self, new_id: i64) -> (r: QueryContext)
        ensures
            r == (QueryContext { query_id: new_id, ..self }),
    {
        QueryContext { query_id: new_id, ..self }
    }

    /// The same context for a request.
    pub fn with_request_id(self, new_id: String) -> (r: QueryContext)
        ensures
            r == (QueryContext { request_id: Some(new_id), ..self }),
    {
        QueryContext { request_id: Some(new_id), ..self }
    }

    /// The same context from a client address.
    pub fn with_ip_address(self, ip_address: String) -> (r: QueryContext)
        ensures
            r == (QueryContext { ip_address: Some(ip_address), ..self }),
    {
        QueryContext { ip_address: Some(ip_address), ..self }
    }

    /// The same context, run asynchronously or not.
    pub fn with_async_query(self, async_query: bool) -> (r: QueryContext)
        ensures
            r == (QueryContext { async_query, ..self }),
    {
        QueryContext { async_query, ..self }
    }
}

impl Default for QueryContext {
    fn default() -> (r: Self)
        ensures
            r.database is None && r.schema is None && r.worksheet_id is None && r.query_id == 0
                && r.request_id is None && r.ip_address is None && !r.async_query,
    {
        QueryContext::new(None, None, None)
    }
}

} // verus!
