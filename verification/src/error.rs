//! The library's error type.
use vstd::prelude::*;
use crate::text::{push_str, starts_with};

verus! {

#[verifier::external_type_specification]
#[verifier::external_body]
pub struct ExIoError(std::io::Error);

/// Unified error type for all operations: connection, query, protocol,
/// model, pool and transaction errors.
#[derive(Debug)]
pub enum Error {
    /// Database connection errors (auth, network, ...)
    Connection(String),
    /// SQL query errors (syntax, constraint violations, ...)
    Query(String),
    /// SQL execution errors (write operations)
    Execute(String),
    /// Low-level protocol errors (wire format, parsing)
    Protocol(String),
    /// Model serialization/deserialization errors
    Model(String),
    /// Connection pool errors (exhausted, closed)
    Pool(String),
    /// Configuration errors (invalid DSN, ...)
    Config(String),
    /// Wrapped I/O errors
    Io(std::io::Error),
    /// Entity not found
    NotFound(String),
    /// Transaction errors (begin, commit, rollback)
    Transaction(String),
    /// SQL injection detected (an identifier that is not plain, or text
    /// with an injection pattern)
    SqlInjection(String),
}

/// Convenience alias for `Result<T, Error>`.
pub type Result<T> = std::result::Result<T, Error>;

/// The text `io::Error`'s `Display` gives (`ToString::to_string`). It rests on
/// the operating system's messages, so nothing is stated of it.
#[verifier::external_body]
fn io_error_text(e: &std::io::Error) -> String {
    e.to_string()
}

impl Error {
    /// The prefix that the display text of each variant starts with.
    pub open spec fn spec_prefix(&self) -> Seq<char> {
        match self {
            Error::Connection(_) => "connection error: "@,
            Error::Query(_) => "query error: "@,
            Error::Execute(_) => "execute error: "@,
            Error::Protocol(_) => "protocol error: "@,
            Error::Model(_) => "model error: "@,
            Error::Pool(_) => "pool error: "@,
            Error::Config(_) => "config error: "@,
            Error::Io(_) => "io error: "@,
            Error::NotFound(_) => "not found: "@,
            Error::Transaction(_) => "transaction error: "@,
            Error::SqlInjection(_) => "sql injection: "@,
        }
    }

    /// The message a variant other than `Io` carries.
    pub open spec fn spec_message(&self) -> Seq<char> {
        match self {
            Error::Connection(m) => m@,
            Error::Query(m) => m@,
            Error::Execute(m) => m@,
            Error::Protocol(m) => m@,
            Error::Model(m) => m@,
            Error::Pool(m) => m@,
            Error::Config(m) => m@,
            Error::Io(_) => Seq::empty(),
            Error::NotFound(m) => m@,
            Error::Transaction(m) => m@,
            Error::SqlInjection(m) => m@,
        }
    }

    /// The variant's name, as the serialised form's `type` field has it.
    pub open spec fn spec_variant_name(&self) -> Seq<char> {
        match self {
            Error::Connection(_) => "Connection"@,
            Error::Query(_) => "Query"@,
            Error::Execute(_) => "Execute"@,
            Error::Protocol(_) => "Protocol"@,
            Error::Model(_) => "Model"@,
            Error::Pool(_) => "Pool"@,
            Error::Config(_) => "Config"@,
            Error::Io(_) => "Io"@,
            Error::NotFound(_) => "NotFound"@,
            Error::Transaction(_) => "Transaction"@,
            Error::SqlInjection(_) => "SqlInjection"@,
        }
    }

    fn prefix(&self) -> (r: &'static str)
        ensures
            r@ == self.spec_prefix(),
    {
        match self {
            Error::Connection(_) => "connection error: ",
            Error::Query(_) => "query error: ",
            Error::Execute(_) => "execute error: ",
            Error::Protocol(_) => "protocol error: ",
            Error::Model(_) => "model error: ",
            Error::Pool(_) => "pool error: ",
            Error::Config(_) => "config error: ",
            Error::Io(_) => "io error: ",
            Error::NotFound(_) => "not found: ",
            Error::Transaction(_) => "transaction error: ",
            Error::SqlInjection(_) => "sql injection: ",
        }
    }

    /// The variant's name (`"Connection"`, `"Query"`, ...).
    pub fn variant_name(&self) -> (r: &'static str)
        ensures
            r@ == self.spec_variant_name(),
    {
        match self {
            Error::Connection(_) => "Connection",
            Error::Query(_) => "Query",
            Error::Execute(_) => "Execute",
            Error::Protocol(_) => "Protocol",
            Error::Model(_) => "Model",
            Error::Pool(_) => "Pool",
            Error::Config(_) => "Config",
            Error::Io(_) => "Io",
            Error::NotFound(_) => "NotFound",
            Error::Transaction(_) => "Transaction",
            Error::SqlInjection(_) => "SqlInjection",
        }
    }

    /// The message the error carries; for `Io`, the I/O error's own text.
    pub fn message(&self) -> (r: String)
        ensures
            !(self is Io) ==> r@ == self.spec_message(),
    {
        match self {
            Error::Connection(m) => m.clone(),
            Error::Query(m) => m.clone(),
            Error::Execute(m) => m.clone(),
            Error::Protocol(m) => m.clone(),
            Error::Model(m) => m.clone(),
            Error::Pool(m) => m.clone(),
            Error::Config(m) => m.clone(),
            Error::Io(e) => io_error_text(e),
            Error::NotFound(m) => m.clone(),
            Error::Transaction(m) => m.clone(),
            Error::SqlInjection(m) => m.clone(),
        }
    }

    /// The display text: the variant's prefix (e.g. `"not found: "`) followed
    /// by the message. For `Io` the message is the I/O error's own display
    /// text, which rests on the operating system: the text starts with
    /// `"io error: "` and nothing is stated of the rest.
    pub fn to_display_string(&self) -> (r: String)
        ensures
            !(self is Io) ==> r@ == self.spec_prefix() + self.spec_message(),
            self is Io ==> starts_with(r@, "io error: "@),
    {
        let mut r = String::from_str(self.prefix());
        let ghost p = r@;
        let m = self.message();
        push_str(&mut r, m.as_str());
        assert(r@.subrange(0, p.len() as int) =~= p);
        r
    }

    /// Whether the error wraps an underlying error (only `Io` does).
    pub fn has_source(&self) -> (r: bool)
        ensures
            r == (self is Io),
    {
        match self {
            Error::Io(_) => true,
            _ => false,
        }
    }
}

impl From<String> for Error {
    fn from(msg: String) -> (r: Error) {
        Error::Protocol(msg)
    }
}

impl vstd::std_specs::convert::FromSpecImpl<String> for Error {
    open spec fn obeys_from_spec() -> bool {
        true
    }

    open spec fn from_spec(msg: String) -> Error {
        Error::Protocol(msg)
    }
}

impl<'a> From<&'a str> for Error {
    fn from(msg: &'a str) -> (r: Error)
        ensures
            r matches Error::Protocol(m) && m@ == msg@,
    {
        Error::Protocol(String::from_str(msg))
    }
}

impl<'a> vstd::std_specs::convert::FromSpecImpl<&'a str> for Error {
    open spec fn obeys_from_spec() -> bool {
        false
    }

    open spec fn from_spec(msg: &'a str) -> Error {
        Error::Protocol(arbitrary())
    }
}

impl From<std::io::Error> for Error {
    fn from(err: std::io::Error) -> (r: Error) {
        Error::Io(err)
    }
}

impl vstd::std_specs::convert::FromSpecImpl<std::io::Error> for Error {
    open spec fn obeys_from_spec() -> bool {
        true
    }

    open spec fn from_spec(err: std::io::Error) -> Error {
        Error::Io(err)
    }
}

/// A protocol error carrying `msg` (the `From<&str>` conversion).
pub fn protocol_error(msg: &str) -> (r: Error)
    ensures
        r matches Error::Protocol(m) && m@ == msg@,
{
    Error::Protocol(String::from_str(msg))
}

} // verus!
