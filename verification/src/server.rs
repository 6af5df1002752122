//! How a run of the two servers ends.
use vstd::prelude::*;

verus! {

/// The event that ends a run of the two servers: the HTTP address could not be bound, so that
/// neither server was started, or one of the servers, both being up, was the first to end.
pub enum RunEnd<E> {
    BindFailed(E),
    GrpcEnded(Result<(), E>),
    HttpEnded(Result<(), E>),
}

/// The result of a run of the two servers: the error that kept them from starting, or the
/// result of the server that was the first to end.
pub fn run_result<E>(end: RunEnd<E>) -> (res: Result<(), E>)
    ensures
        res == match end {
            RunEnd::BindFailed(err) => Err(err),
            RunEnd::GrpcEnded(ended) => ended,
            RunEnd::HttpEnded(ended) => ended,
        },
{
    match end {
        RunEnd::BindFailed(err) => Err(err),
        RunEnd::GrpcEnded(ended) => ended,
        RunEnd::HttpEnded(ended) => ended,
    }
}

} // verus!
