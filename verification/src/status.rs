//! The statuses with which a call is refused or fails.
use vstd::prelude::*;

verus! {

/// The status codes that the service answers with.
#[derive(Clone, Copy, Debug, PartialEq, Eq, Structural)]
pub enum Code {
    InvalidArgument,
    Internal,
}

/// The status of a call that did not succeed.
#[derive(Debug, PartialEq, Eq)]
pub struct Status {
    pub code: Code,
    pub message: String,
}

/// What a status tells the client.
pub struct StatusView {
    pub code: Code,
    pub message: Seq<char>,
}

impl View for Status {
    type V = StatusView;

    open spec fn view(&self) -> StatusView {
        StatusView { code: self.code, message: self.message@ }
    }
}

/// An error of the database, with its description.
#[derive(Debug)]
pub struct DbError {
    pub description: String,
}

/// The status of a request that is refused for the reason given in `message`.
pub open spec fn invalid_argument(message: Seq<char>) -> StatusView {
    StatusView { code: Code::InvalidArgument, message }
}

/// The status of every call that fails in the database.
pub open spec fn db_failure() -> StatusView {
    StatusView { code: Code::Internal, message: "database operation failed"@ }
}

impl Status {
    /// The status of a request that is refused for the reason given in `message`.
    pub fn invalid_argument(message: &str) -> (res: Status)
        ensures
            res@ == invalid_argument(message@),
            res.code == Code::InvalidArgument,
            res.message@ == message@,
    {
        Status { code: Code::InvalidArgument, message: message.to_owned() }
    }

    /// The status of a call that fails inside the service.
    pub fn internal(message: &str) -> (res: Status)
        ensures
            res@ == (StatusView { code: Code::Internal, message: message@ }),
            res.code == Code::Internal,
            res.message@ == message@,
    {
        Status { code: Code::Internal, message: message.to_owned() }
    }
}

/// Maps a database error to the status that the client sees: the same for every error, so that
/// no description of an error leaves the service.
pub fn map_db_error(_err: DbError) -> (res: Status)
    ensures
        res@ == db_failure(),
        res.code == Code::Internal,
        res.message@ == "database operation failed"@,
{
    Status::internal("database operation failed")
}

/// What a status tells the client is its code and its message.
pub proof fn status_shows_code_and_message(status: Status)
    ensures
        status@.code == status.code,
        status@.message == status.message@,
{
}

/// The status of a refused request has the code for a wrong argument, and the reason as its
/// message; that of a failure in the database has neither.
pub proof fn refusals_and_failures_differ(message: Seq<char>)
    ensures
        invalid_argument(message).code == Code::InvalidArgument,
        invalid_argument(message).message == message,
        db_failure().code == Code::Internal,
        db_failure().message == "database operation failed"@,
        invalid_argument(message) != db_failure(),
{
}

} // verus!
