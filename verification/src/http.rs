//! The HTTP endpoints.
use vstd::prelude::*;

use crate::cache::CacheError;
use crate::status::DbError;

verus! {

/// The path of the endpoint that tells whether the service is up.
pub const HEALTH_PATH: &'static str = "/health";

/// The path of the endpoint that tells whether the service can serve calls.
pub const READY_PATH: &'static str = "/ready";

/// The statement that probes the database.
pub const DB_PROBE: &'static str = "SELECT 1";

/// The reply to an HTTP request: its status code and its body.
#[derive(Debug)]
pub struct HttpReply {
    pub status: u16,
    pub body: &'static str,
}

/// Answers a request for the health of the service.
pub fn health_handler() -> (res: HttpReply)
    ensures
        res.status == 200,
        res.body@ == "OK"@,
{
    HttpReply { status: 200, body: "OK" }
}

/// Answers a request for the readiness of the service, given how the probes of the database and
/// of the cache have ended. The service is ready where both have succeeded.
pub fn ready_handler(db: Result<(), DbError>, cache: Result<(), CacheError>) -> (res: HttpReply)
    ensures
        db is Ok && cache is Ok ==> res.status == 200 && res.body@ == "READY"@,
        db is Err || cache is Err ==> res.status == 503 && res.body@ == "NOT_READY"@,
{
    match (db, cache) {
        (Ok(_), Ok(_)) => HttpReply { status: 200, body: "READY" },
        _ => HttpReply { status: 503, body: "NOT_READY" },
    }
}

} // verus!
