//! The error taxonomy and the body that the HTTP surface sends for an error.

use vstd::prelude::*;

verus! {

/// What went wrong.
#[derive(Debug)]
pub enum Error {
    /// The store could not be opened or migrated
    DbInit,
    /// A query on the store failed
    Db,
    /// A submission could not be read
    ReadAppData,
    /// The recurring-job store failed
    TaskQueue,
    /// A scheduled run of an app failed
    ScheduledTask,
    /// The server could not start
    ServerStart,
    /// Shutting down failed
    Shutdown,
    /// The named thing does not exist
    NotFound(&'static str),
}

pub open spec fn kind_of(e: Error) -> Seq<char> {
    match e {
        Error::DbInit => "db_init"@,
        Error::Db => "db"@,
        Error::ReadAppData => "read_app_data"@,
        Error::TaskQueue => "task_queue"@,
        Error::ScheduledTask => "scheduled_task"@,
        Error::ServerStart => "server"@,
        Error::Shutdown => "shutdown"@,
        Error::NotFound(_) => "not_found"@,
    }
}

pub open spec fn status_of(e: Error) -> u16 {
    match e {
        Error::ReadAppData => 400,
        Error::NotFound(_) => 404,
        _ => 500,
    }
}

impl Error {
    /// The tag that names the kind of error in a response body.
    pub fn error_kind(&self) -> (r: &'static str)
        ensures
            r@ == kind_of(*self),
    {
        match self {
            Error::DbInit => "db_init",
            Error::Db => "db",
            Error::ReadAppData => "read_app_data",
            Error::TaskQueue => "task_queue",
            Error::ScheduledTask => "scheduled_task",
            Error::ServerStart => "server",
            Error::Shutdown => "shutdown",
            Error::NotFound(_) => "not_found",
        }
    }

    /// The HTTP status for the error: 400 for a submission that cannot be
    /// read, 404 for a missing thing, 500 otherwise.
    pub fn status_code(&self) -> (r: u16)
        ensures
            r == status_of(*self),
    {
        match self {
            Error::ReadAppData => 400,
            Error::NotFound(_) => 404,
            _ => 500,
        }
    }

    /// The message that describes the error.
    pub fn message(&self) -> (r: String)
        ensures
            r@ == message_of(*self),
    {
        match self {
            Error::DbInit => String::from_str("Failed to intialize database"),
            Error::Db => String::from_str("Database error"),
            Error::ReadAppData => String::from_str("Failed to read app data"),
            Error::TaskQueue => String::from_str("Task queue error"),
            Error::ScheduledTask => String::from_str("Scheduled task failed"),
            Error::ServerStart => String::from_str("Failed to start server"),
            Error::Shutdown => String::from_str("Failed to shut down"),
            Error::NotFound(what) => {
                let mut m = String::from_str(what);
                m.append(" not found");
                m
            },
        }
    }

    /// The status and the body of the response for this error.
    pub fn response_tuple(&self) -> (r: (u16, ErrorResponseData))
        ensures
            r.0 == status_of(*self),
            r.1.error.kind@ == kind_of(*self),
            r.1.error.message@ == message_of(*self),
    {
        (self.status_code(), ErrorResponseData::new(String::from_str(self.error_kind()), self.message()))
    }
}

pub open spec fn message_of(e: Error) -> Seq<char> {
    match e {
        Error::DbInit => "Failed to intialize database"@,
        Error::Db => "Database error"@,
        Error::ReadAppData => "Failed to read app data"@,
        Error::TaskQueue => "Task queue error"@,
        Error::ScheduledTask => "Scheduled task failed"@,
        Error::ServerStart => "Failed to start server"@,
        Error::Shutdown => "Failed to shut down"@,
        Error::NotFound(what) => what@ + " not found"@,
    }
}

/// The kind and message of an error, as a response body shows them.
pub struct ErrorDetails {
    pub kind: String,
    pub message: String,
}

/// The JSON body of an error response: `{ "error": { "kind", "message" } }`.
pub struct ErrorResponseData {
    pub error: ErrorDetails,
}

impl ErrorResponseData {
    pub fn new(kind: String, message: String) -> (r: ErrorResponseData)
        ensures
            r.error.kind == kind,
            r.error.message == message,
    {
        ErrorResponseData { error: ErrorDetails { kind, message } }
    }
}

} // verus!
