//! The errors that the library reports.

use vstd::prelude::*;

verus! {

/// What can go wrong while the pipeline is set up or a provider is driven.
#[derive(Debug)]
pub enum Error {
    /// No database file of the provider was found under the given path.
    DatabaseNotFound { path: String },
    /// A provider could not answer a lookup.
    LookupFailed { ip: String },
    /// The template has a field reference without a name.
    InvalidTemplate { reason: String },
    /// Neither IPv4 nor IPv6 was selected for extraction.
    NoPatterns,
    /// No provider is registered under the name.
    UnknownProvider { name: String },
    /// The provider was asked before it was given its databases.
    ProviderNotInitialized { name: String },
    /// The address grammars could not be compiled.
    Grammar { message: String },
    /// A document could not be written as JSON.
    Serialize { message: String },
    /// A file is no database in the format that the reader understands.
    InvalidDatabase { file: String },
}

impl Error {
    /// The message of the error, as one line of text.
    pub fn to_string(&self) -> (r: String)
        ensures
            r@ == self.message(),
    {
        match self {
            Error::DatabaseNotFound { path } => String::from_str("database not found: ").concat(
                path.as_str(),
            ),
            Error::LookupFailed { ip } => String::from_str("lookup failed for ").concat(
                ip.as_str(),
            ),
            Error::InvalidTemplate { reason } => String::from_str("invalid template: ").concat(
                reason.as_str(),
            ),
            Error::NoPatterns => String::from_str("No IP address patterns selected"),
            Error::UnknownProvider { name } => String::from_str("unknown provider: ").concat(
                name.as_str(),
            ),
            Error::ProviderNotInitialized { name } => String::from_str(
                "provider not initialized: ",
            ).concat(name.as_str()),
            Error::Grammar { message } => String::from_str("regex error: ").concat(
                message.as_str(),
            ),
            Error::Serialize { message } => String::from_str("serialization failed: ").concat(
                message.as_str(),
            ),
            Error::InvalidDatabase { file } => String::from_str("invalid database: ").concat(
                file.as_str(),
            ),
        }
    }

    /// The message of the error.
    pub open spec fn message(&self) -> Seq<char> {
        match self {
            Error::DatabaseNotFound { path } => "database not found: "@ + path@,
            Error::LookupFailed { ip } => "lookup failed for "@ + ip@,
            Error::InvalidTemplate { reason } => "invalid template: "@ + reason@,
            Error::NoPatterns => "No IP address patterns selected"@,
            Error::UnknownProvider { name } => "unknown provider: "@ + name@,
            Error::ProviderNotInitialized { name } => "provider not initialized: "@ + name@,
            Error::Grammar { message } => "regex error: "@ + message@,
            Error::Serialize { message } => "serialization failed: "@ + message@,
            Error::InvalidDatabase { file } => "invalid database: "@ + file@,
        }
    }
}

} // verus!
