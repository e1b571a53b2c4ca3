//! Turning the outcome of a request into an HTTP reply.

use vstd::prelude::*;

use crate::failure::{rendered, status_spec, ErrorKind, Failure};

verus! {

/// An HTTP reply: its status, its body, and whether the body is JSON (else it
/// is plain text).
#[derive(Debug)]
pub struct Reply {
    pub status: u16,
    pub body: String,
    pub json: bool,
}

/// The context under which a failure to serialize the aggregate is reported.
pub open spec fn serialize_context() -> Seq<char> {
    "serializing result to json"@
}

/// The failure for an aggregate that could not be serialized; `cause` says
/// why.
pub fn serialize_failure(cause: String) -> (f: Failure)
    ensures
        f.kind == ErrorKind::Internal,
        f.lines() == seq![serialize_context(), cause@],
{
    let ghost c = cause@;
    let f = Failure::new(ErrorKind::Internal, cause).context(
        String::from_str("serializing result to json"),
    );
    assert(f.lines() =~= seq![serialize_context(), c]);
    f
}

/// The reply for the outcome of a request: the serialized aggregate as JSON
/// with status 200, or the failure's description as text with the status
/// that its kind calls for.
pub fn respond(outcome: Result<String, Failure>) -> (r: Reply)
    ensures
        outcome matches Ok(body) ==> r.status == 200 && r.body@ == body@ && r.json,
        outcome matches Err(f) ==> r.status == status_spec(f.kind) && r.body@ == rendered(
            f.lines(),
        ) && !r.json,
{
    match outcome {
        Ok(body) => Reply { status: 200, body, json: true },
        Err(f) => Reply { status: f.status(), body: f.describe(), json: false },
    }
}

} // verus!
