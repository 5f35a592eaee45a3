use vstd::prelude::*;

verus! {

/// The sender's command line.
pub struct Args {
    /// The file or directory to send.
    pub file: String,
    /// The receiver's IP address.
    pub ip: Option<String>,
    /// The receiver's port.
    pub port: Option<u16>,
}

} // verus!
