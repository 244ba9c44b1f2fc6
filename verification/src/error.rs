//! Error types for the library.

use vstd::prelude::*;

verus! {

/// What went wrong in a client operation.
#[derive(Debug)]
pub enum Error {
    /// A protocol command failed.
    Imap(String),
    /// A fetched message could not be parsed.
    Parse(String),
    /// The configuration was incomplete or invalid.
    Config(String),
    /// The connection failed.
    Io(String),
    /// The encryption upgrade failed.
    Tls(String),
}

impl Error {
    /// The detail text carried by the error.
    pub open spec fn spec_detail(&self) -> Seq<char> {
        match self {
            Error::Imap(s) => s@,
            Error::Parse(s) => s@,
            Error::Config(s) => s@,
            Error::Io(s) => s@,
            Error::Tls(s) => s@,
        }
    }

    /// A one-line description: the error's category and its detail.
    pub fn describe(&self) -> (r: String)
        ensures
            ({
                match self {
                    Error::Imap(s) => r@ == "IMAP error: "@ + s@,
                    Error::Parse(s) => r@ == "Email parsing error: "@ + s@,
                    Error::Config(s) => r@ == "Configuration error: "@ + s@,
                    Error::Io(s) => r@ == "IO error: "@ + s@,
                    Error::Tls(s) => r@ == "TLS error: "@ + s@,
                }
            }),
    {
        match self {
            Error::Imap(s) => String::from_str("IMAP error: ").concat(s.as_str()),
            Error::Parse(s) => String::from_str("Email parsing error: ").concat(s.as_str()),
            Error::Config(s) => String::from_str("Configuration error: ").concat(s.as_str()),
            Error::Io(s) => String::from_str("IO error: ").concat(s.as_str()),
            Error::Tls(s) => String::from_str("TLS error: ").concat(s.as_str()),
        }
    }
}

} // verus!
