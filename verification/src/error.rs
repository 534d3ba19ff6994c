//! Error taxonomy of the reader and the numeric codes that stand for it
//! across a foreign-function boundary.

use vstd::prelude::*;
use vstd::string::StringExecFns;

verus! {

/// The class of a local input/output failure.
#[derive(Clone, Copy, Debug, PartialEq, Eq, Structural)]
pub enum IoKind {
    /// An argument of the caller was not acceptable.
    InvalidInput,
    /// The operation cannot be carried out on this file.
    Unsupported,
    /// Any other local failure.
    Other,
}

/// Everything that can go wrong while reading a remote file.
#[derive(Clone, Debug, PartialEq, Eq)]
pub enum FsError {
    /// Transport-level failure; the only class that is retried.
    Network(String),
    /// The server broke the range protocol; never retried.
    Protocol(String),
    /// A local invalid input.
    Io(IoKind, String),
    /// The file was used after `close`.
    FileClosed,
    /// The URL scheme is neither `http` nor `https`.
    UnsupportedProtocol(String),
}

impl FsError {
    /// Whether a retry may cure this failure: exactly the network class.
    pub open spec fn is_transient(&self) -> bool {
        self is Network
    }

    /// Exec counterpart of [`FsError::is_transient`].
    pub fn retryable(&self) -> (r: bool)
        ensures
            r == self.is_transient(),
    {
        match self {
            FsError::Network(_) => true,
            _ => false,
        }
    }

    /// The text a human reads for this error.
    pub open spec fn spec_message(&self) -> Seq<char> {
        match self {
            FsError::Network(m) => "Network error: "@ + m@,
            FsError::Protocol(m) => "Protocol error: "@ + m@,
            FsError::Io(_, m) => "IO error: "@ + m@,
            FsError::FileClosed => "File is closed"@,
            FsError::UnsupportedProtocol(m) => "Unsupported protocol: "@ + m@,
        }
    }

    /// Renders the error as text: a fixed prefix naming the class, then the detail.
    pub fn message(&self) -> (r: String)
        ensures
            r@ == self.spec_message(),
    {
        match self {
            FsError::Network(m) => String::from_str("Network error: ").concat(m.as_str()),
            FsError::Protocol(m) => String::from_str("Protocol error: ").concat(m.as_str()),
            FsError::Io(_, m) => String::from_str("IO error: ").concat(m.as_str()),
            FsError::FileClosed => String::from_str("File is closed"),
            FsError::UnsupportedProtocol(m) => String::from_str("Unsupported protocol: ").concat(
                m.as_str(),
            ),
        }
    }
}

/// Numeric error classes reported to callers that cannot receive an [`FsError`].
#[allow(non_camel_case_types)]
#[derive(Clone, Copy, Debug, PartialEq, Eq, Structural)]
pub enum PravahaErrorCode {
    PRAVAHA_SUCCESS,
    PRAVAHA_NETWORK,
    PRAVAHA_PROTOCOL,
    PRAVAHA_IO,
    PRAVAHA_FILE_CLOSED,
    PRAVAHA_UNSUPPORTED_PROTOCOL,
    PRAVAHA_INVALID_ARGUMENT,
    PRAVAHA_UNKNOWN,
}

impl PravahaErrorCode {
    /// The code that stands for an error's class.
    pub open spec fn spec_from(err: &FsError) -> PravahaErrorCode {
        match err {
            FsError::Network(_) => PravahaErrorCode::PRAVAHA_NETWORK,
            FsError::Protocol(_) => PravahaErrorCode::PRAVAHA_PROTOCOL,
            FsError::Io(_, _) => PravahaErrorCode::PRAVAHA_IO,
            FsError::FileClosed => PravahaErrorCode::PRAVAHA_FILE_CLOSED,
            FsError::UnsupportedProtocol(_) => PravahaErrorCode::PRAVAHA_UNSUPPORTED_PROTOCOL,
        }
    }

    /// Maps an error to the code of its class; the detail text is dropped.
    pub fn from(err: &FsError) -> (r: PravahaErrorCode)
        ensures
            r == Self::spec_from(err),
    {
        match err {
            FsError::Network(_) => PravahaErrorCode::PRAVAHA_NETWORK,
            FsError::Protocol(_) => PravahaErrorCode::PRAVAHA_PROTOCOL,
            FsError::Io(_, _) => PravahaErrorCode::PRAVAHA_IO,
            FsError::FileClosed => PravahaErrorCode::PRAVAHA_FILE_CLOSED,
            FsError::UnsupportedProtocol(_) => PravahaErrorCode::PRAVAHA_UNSUPPORTED_PROTOCOL,
        }
    }

    /// The integer each code is known by.
    pub open spec fn spec_code(&self) -> int {
        match self {
            PravahaErrorCode::PRAVAHA_SUCCESS => 0,
            PravahaErrorCode::PRAVAHA_NETWORK => 1,
            PravahaErrorCode::PRAVAHA_PROTOCOL => 2,
            PravahaErrorCode::PRAVAHA_IO => 3,
            PravahaErrorCode::PRAVAHA_FILE_CLOSED => 4,
            PravahaErrorCode::PRAVAHA_UNSUPPORTED_PROTOCOL => 5,
            PravahaErrorCode::PRAVAHA_INVALID_ARGUMENT => 6,
            PravahaErrorCode::PRAVAHA_UNKNOWN => 99,
        }
    }

    /// Exec counterpart of [`PravahaErrorCode::spec_code`].
    pub fn code(&self) -> (r: i32)
        ensures
            r == self.spec_code(),
    {
        match self {
            PravahaErrorCode::PRAVAHA_SUCCESS => 0,
            PravahaErrorCode::PRAVAHA_NETWORK => 1,
            PravahaErrorCode::PRAVAHA_PROTOCOL => 2,
            PravahaErrorCode::PRAVAHA_IO => 3,
            PravahaErrorCode::PRAVAHA_FILE_CLOSED => 4,
            PravahaErrorCode::PRAVAHA_UNSUPPORTED_PROTOCOL => 5,
            PravahaErrorCode::PRAVAHA_INVALID_ARGUMENT => 6,
            PravahaErrorCode::PRAVAHA_UNKNOWN => 99,
        }
    }
}

} // verus!
