//! Resolving the inbound request into what the client asked for.

use vstd::prelude::*;

use crate::failure::{status_spec, ErrorKind, Failure};

verus! {

/// What the client asked for: a place name, and how many candidate locations
/// to report on.
#[derive(Debug)]
pub struct Query {
    pub city: String,
    pub count: u32,
}

/// The fields of a query string that decoded, before defaults and validation.
#[derive(Debug)]
pub struct QueryParams {
    pub city: String,
    /// Absent when the query string names no count.
    pub count: Option<u32>,
}

/// The query string of an inbound request, as the codec left it.
#[derive(Debug)]
pub enum RawQuery {
    /// The request has no query string.
    Absent,
    /// The query string does not decode into the expected fields; the codec's
    /// message.
    Malformed(String),
    /// The query string decoded into these fields.
    Decoded(QueryParams),
}

/// The number of locations asked for when the query string names none.
pub open spec fn default_count_spec() -> u32 {
    10
}

/// The place asked for when the request has no query string.
pub open spec fn fallback_city() -> Seq<char> {
    "Portland"@
}

/// The context under which a query that cannot be used is reported.
pub open spec fn query_context() -> Seq<char> {
    "getting location name"@
}

/// The message for a query that asks for no locations.
pub open spec fn zero_count_message() -> Seq<char> {
    "nonzero count required"@
}

/// The message for a request with an unsupported method.
pub open spec fn method_message(method: Seq<char>) -> Seq<char> {
    "unsupported method "@ + method
}

/// The count that decoded fields ask for, the default standing in for an
/// absent one.
pub open spec fn count_asked(p: QueryParams) -> u32 {
    match p.count {
        Some(c) => c,
        None => default_count_spec(),
    }
}

/// `r` is the outcome of resolving `raw`: the fallback query when there is no
/// query string; a bad-input failure when it does not decode or asks for no
/// locations; otherwise the decoded city with the count asked for.
pub open spec fn resolves(raw: RawQuery, r: Result<Query, Failure>) -> bool {
    match raw {
        RawQuery::Absent => r matches Ok(q) && q.city@ == fallback_city() && q.count
            == default_count_spec(),
        RawQuery::Malformed(m) => r matches Err(f) && f.kind == ErrorKind::BadInput && f.lines()
            == seq![query_context(), m@],
        RawQuery::Decoded(p) => if count_asked(p) == 0 {
            r matches Err(f) && f.kind == ErrorKind::BadInput && f.lines() == seq![
                query_context(),
                zero_count_message(),
            ]
        } else {
            r matches Ok(q) && q.city@ == p.city@ && q.count == count_asked(p)
        },
    }
}

/// `r` is the outcome of accepting a request with `method` and query string
/// `raw`: any method but GET is refused before the query string is looked at;
/// for GET the query string is resolved.
pub open spec fn accepts(method: Seq<char>, raw: RawQuery, r: Result<Query, Failure>) -> bool {
    if method != "GET"@ {
        r matches Err(f) && f.kind == ErrorKind::BadMethod && f.lines() == seq![
            method_message(method),
        ]
    } else {
        resolves(raw, r)
    }
}

/// A GET request whose query string sets the count to zero is refused as bad
/// input, reported with status 400, whatever place it names.
pub proof fn lemma_zero_count_refused(method: Seq<char>, p: QueryParams, r: Result<Query, Failure>)
    requires
        method == "GET"@,
        p.count == Some(0u32),
        accepts(method, RawQuery::Decoded(p), r),
    ensures
        r matches Err(f) && f.kind == ErrorKind::BadInput && status_spec(f.kind) == 400,
{
}

/// The method is checked first: a request with any method but GET is refused,
/// reported with status 405, whatever its query string holds, valid or not.
pub proof fn lemma_method_checked_first(method: Seq<char>, raw: RawQuery, r: Result<Query, Failure>)
    requires
        method != "GET"@,
        accepts(method, raw, r),
    ensures
        r matches Err(f) && f.kind == ErrorKind::BadMethod && status_spec(f.kind) == 405,
{
}

/// The number of locations asked for when the query string names none.
pub fn default_count() -> (r: u32)
    ensures
        r == default_count_spec(),
{
    10
}

impl Query {
    /// The query used when the request has no query string.
    pub fn fallback() -> (r: Query)
        ensures
            r.city@ == fallback_city(),
            r.count == default_count_spec(),
    {
        Query { city: String::from_str("Portland"), count: default_count() }
    }
}

impl Default for Query {
    /// The query used when the request has no query string.
    fn default() -> (r: Query)
        ensures
            r.city@ == fallback_city(),
            r.count == default_count_spec(),
    {
        Query::fallback()
    }
}

/// Resolves the query string of a request into a `Query`.
pub fn get_query(raw: RawQuery) -> (r: Result<Query, Failure>)
    ensures
        resolves(raw, r),
{
    match raw {
        RawQuery::Absent => Ok(Query::fallback()),
        RawQuery::Malformed(m) => {
            let ghost message = m@;
            let f = Failure::new(ErrorKind::BadInput, m);
            let f = f.context(String::from_str("getting location name"));
            assert(f.lines() =~= seq![query_context(), message]);
            Err(f)
        },
        RawQuery::Decoded(p) => {
            let count = match p.count {
                Some(c) => c,
                None => default_count(),
            };
            if count == 0 {
                let f = Failure::new(ErrorKind::BadInput, String::from_str("nonzero count required"));
                let f = f.context(String::from_str("getting location name"));
                assert(f.lines() =~= seq![query_context(), zero_count_message()]);
                Err(f)
            } else {
                Ok(Query { city: p.city, count })
            }
        },
    }
}

/// Accepts an inbound request: a method other than GET is refused before the
/// query string is looked at; otherwise the query string is resolved.
pub fn accept_request(method: &String, raw: RawQuery) -> (r: Result<Query, Failure>)
    ensures
        accepts(method@, raw, r),
{
    let get = String::from_str("GET");
    if *method == get {
        get_query(raw)
    } else {
        let message = String::from_str("unsupported method ").concat(method.as_str());
        Err(Failure::new(ErrorKind::BadMethod, message))
    }
}

} // verus!
