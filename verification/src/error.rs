//! Classified failures of the client: every error the library can surface,
//! with a verified rendering of each error message.

use vstd::prelude::*;

use crate::strutil::{chars_to_string, dec_digits, u64_to_dec};

use crate::cli::{spec_parse_error_message, ParseError};

verus! {

/// A classified failure of the request pipeline. Exactly one variant applies
/// to any failed invocation, and each carries enough detail to render without
/// another network round trip.
#[derive(Debug)]
pub enum ClientError {
    /// The transport could not be constructed.
    Init(String),
    /// A transient network fault that survived every retry.
    Network(String),
    /// The server answered with a non-success status; the body is kept verbatim.
    ApiError { status: u16, body: String },
    /// The server URL (or a URL derived from it) is malformed.
    Url(String),
    /// A wire payload could not be encoded or decoded.
    Serde(String),
}

/// The rendered message of each error variant.
pub open spec fn spec_client_error_message(e: ClientError) -> Seq<char> {
    match e {
        ClientError::Init(reason) => "Client initialization failed: "@ + reason@,
        ClientError::Network(reason) => "Network error: "@ + reason@,
        ClientError::ApiError { status, body } => "API error (status: "@ + dec_digits(
            status as nat,
        ) + "): "@ + body@,
        ClientError::Url(reason) => "URL error: "@ + reason@,
        ClientError::Serde(reason) => "Serialization error: "@ + reason@,
    }
}

impl ClientError {
    /// Renders the error for the user.
    pub fn message(&self) -> (m: String)
        ensures
            m@ == spec_client_error_message(*self),
    {
        match self {
            ClientError::Init(reason) => {
                let mut m = String::new();
                m.append("Client initialization failed: ");
                m.append(reason.as_str());
                m
            },
            ClientError::Network(reason) => {
                let mut m = String::new();
                m.append("Network error: ");
                m.append(reason.as_str());
                m
            },
            ClientError::ApiError { status, body } => {
                let digits = u64_to_dec(*status as u64);
                let mut m = String::new();
                m.append("API error (status: ");
                m.append(chars_to_string(&digits).as_str());
                m.append("): ");
                m.append(body.as_str());
                m
            },
            ClientError::Url(reason) => {
                let mut m = String::new();
                m.append("URL error: ");
                m.append(reason.as_str());
                m
            },
            ClientError::Serde(reason) => {
                let mut m = String::new();
                m.append("Serialization error: ");
                m.append(reason.as_str());
                m
            },
        }
    }
}

/// A failure of the whole invocation: either the command line was rejected
/// before any work, or the client failed while doing the work. The top-level
/// handler renders the message and exits with the matching code; nothing below
/// it terminates the process.
#[derive(Debug)]
pub enum AppError {
    Cli(ParseError),
    Client(ClientError),
}

impl AppError {
    /// The process exit code the invocation ends with: the usage convention
    /// (2) for a rejected command line, 10 for every client failure.
    pub fn exit_code(&self) -> (c: i32)
        ensures
            c == match *self {
                AppError::Cli(_) => 2int,
                AppError::Client(_) => 10int,
            },
    {
        match self {
            AppError::Cli(_) => 2,
            AppError::Client(_) => 10,
        }
    }

    /// Renders the failure for the user.
    pub fn message(&self) -> (m: String)
        ensures
            m@ == match *self {
                AppError::Cli(e) => spec_parse_error_message(e),
                AppError::Client(e) => spec_client_error_message(e),
            },
    {
        match self {
            AppError::Cli(e) => e.message(),
            AppError::Client(e) => e.message(),
        }
    }
}

} // verus!
