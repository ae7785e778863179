//! The error type shared by every fallible operation of the worker.

use vstd::prelude::*;

verus! {

/// The kinds of failure a worker distinguishes.
#[derive(Debug, Clone, Copy, PartialEq, Eq, Structural)]
pub enum ErrorKind {
    /// The transport to the broker failed.
    Connection,
    /// The broker refused the session key.
    Authentication,
    /// A configuration value was rejected at startup.
    InvalidConfig,
    /// The broker sent a reply the protocol does not allow.
    RespProtocol,
    /// A job, plan or task was rejected.
    Worker,
    /// A subprocess could not be set up.
    Executor,
    /// An I/O operation failed.
    Io,
    /// The broker library reported a failure.
    Redis,
}

/// A failure, with its kind and a human-readable detail.
#[derive(Debug, Clone)]
pub enum AgwError {
    Connection(String),
    Authentication(String),
    InvalidConfig(String),
    RespProtocol(String),
    Worker(String),
    Executor(String),
    Io(String),
    Redis(String),
}

pub type AgwResult<T> = Result<T, AgwError>;

/// What introduces the detail of an error of the given kind when it is displayed.
pub open spec fn kind_prefix(kind: ErrorKind) -> Seq<char> {
    match kind {
        ErrorKind::Connection => "Connection error: "@,
        ErrorKind::Authentication => "Authentication failed: "@,
        ErrorKind::InvalidConfig => "Invalid configuration: "@,
        ErrorKind::RespProtocol => "RESP protocol error: "@,
        ErrorKind::Worker => "Worker error: "@,
        ErrorKind::Executor => "Executor error: "@,
        ErrorKind::Io => "IO error: "@,
        ErrorKind::Redis => "Redis error: "@,
    }
}

impl AgwError {
    /// The kind of this error.
    pub open spec fn kind_spec(&self) -> ErrorKind {
        match self {
            AgwError::Connection(_) => ErrorKind::Connection,
            AgwError::Authentication(_) => ErrorKind::Authentication,
            AgwError::InvalidConfig(_) => ErrorKind::InvalidConfig,
            AgwError::RespProtocol(_) => ErrorKind::RespProtocol,
            AgwError::Worker(_) => ErrorKind::Worker,
            AgwError::Executor(_) => ErrorKind::Executor,
            AgwError::Io(_) => ErrorKind::Io,
            AgwError::Redis(_) => ErrorKind::Redis,
        }
    }

    /// The detail carried by this error.
    pub open spec fn detail(&self) -> Seq<char> {
        match self {
            AgwError::Connection(m) => m@,
            AgwError::Authentication(m) => m@,
            AgwError::InvalidConfig(m) => m@,
            AgwError::RespProtocol(m) => m@,
            AgwError::Worker(m) => m@,
            AgwError::Executor(m) => m@,
            AgwError::Io(m) => m@,
            AgwError::Redis(m) => m@,
        }
    }

    /// Whether this error has the given kind and detail.
    pub open spec fn has(&self, kind: ErrorKind, detail: Seq<char>) -> bool {
        self.kind_spec() == kind && self.detail() == detail
    }

    /// The kind of this error.
    #[verifier::when_used_as_spec(kind_spec)]
    pub fn kind(&self) -> (k: ErrorKind)
        ensures
            k == self.kind_spec(),
    {
        match self {
            AgwError::Connection(_) => ErrorKind::Connection,
            AgwError::Authentication(_) => ErrorKind::Authentication,
            AgwError::InvalidConfig(_) => ErrorKind::InvalidConfig,
            AgwError::RespProtocol(_) => ErrorKind::RespProtocol,
            AgwError::Worker(_) => ErrorKind::Worker,
            AgwError::Executor(_) => ErrorKind::Executor,
            AgwError::Io(_) => ErrorKind::Io,
            AgwError::Redis(_) => ErrorKind::Redis,
        }
    }

    /// The detail carried by this error, without the kind's prefix.
    pub fn message(&self) -> (m: &str)
        ensures
            m@ == self.detail(),
    {
        match self {
            AgwError::Connection(m) => m.as_str(),
            AgwError::Authentication(m) => m.as_str(),
            AgwError::InvalidConfig(m) => m.as_str(),
            AgwError::RespProtocol(m) => m.as_str(),
            AgwError::Worker(m) => m.as_str(),
            AgwError::Executor(m) => m.as_str(),
            AgwError::Io(m) => m.as_str(),
            AgwError::Redis(m) => m.as_str(),
        }
    }

    /// The error as it is displayed: the kind's prefix followed by the detail.
    pub fn to_string(&self) -> (s: String)
        ensures
            s@ == kind_prefix(self.kind_spec()) + self.detail(),
    {
        let prefix = match self {
            AgwError::Connection(_) => "Connection error: ",
            AgwError::Authentication(_) => "Authentication failed: ",
            AgwError::InvalidConfig(_) => "Invalid configuration: ",
            AgwError::RespProtocol(_) => "RESP protocol error: ",
            AgwError::Worker(_) => "Worker error: ",
            AgwError::Executor(_) => "Executor error: ",
            AgwError::Io(_) => "IO error: ",
            AgwError::Redis(_) => "Redis error: ",
        };
        let mut s = String::from_str(prefix);
        s.append(self.message());
        s
    }
}

} // verus!
