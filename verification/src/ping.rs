//! The `Ping` call.
use vstd::prelude::*;

verus! {

/// The reply to `Ping`.
#[derive(Debug)]
pub struct PingResponse {
    pub message: String,
}

/// Answers `Ping`.
pub fn ping() -> (res: PingResponse)
    ensures
        res.message@ == "pong"@,
{
    PingResponse { message: "pong".to_owned() }
}

} // verus!
