use vstd::prelude::*;

verus! {

/// Why a transfer did not take place.
#[derive(PartialEq, Eq, Structural, Clone, Copy, Debug)]
pub enum TransferError {
    /// The local path to send is neither a regular file nor a directory.
    InvalidTarget,
    /// Connecting, reading or writing the socket failed.
    ConnectionError,
    /// The header was truncated or malformed.
    ProtocolError,
    /// A header cannot carry the name: it is not UTF-8, or longer than a
    /// receiver accepts.
    InvalidHeader,
    /// Packing or unpacking a directory failed.
    ArchiveError,
}

impl TransferError {
    /// A human-readable account of the failure.
    pub fn describe(&self) -> (r: &'static str)
        ensures
            r@ == match *self {
                TransferError::InvalidTarget => "the path is neither a file nor a directory"@,
                TransferError::ConnectionError => "connection failure"@,
                TransferError::ProtocolError => "truncated or malformed header"@,
                TransferError::InvalidHeader => "the name cannot be carried in a header"@,
                TransferError::ArchiveError => "archive failure"@,
            },
    {
        match self {
            TransferError::InvalidTarget => "the path is neither a file nor a directory",
            TransferError::ConnectionError => "connection failure",
            TransferError::ProtocolError => "truncated or malformed header",
            TransferError::InvalidHeader => "the name cannot be carried in a header",
            TransferError::ArchiveError => "archive failure",
        }
    }
}

} // verus!
