use vstd::prelude::*;

verus! {

/// Errors raised by the library's own logic. Errors of the database, JSON and
/// I/O layers are carried by the application's error type, which wraps this one.
#[derive(Debug)]
pub enum Error {
    /// Input that could not be parsed.
    Parse(String),
    /// A scanner that is not available on this platform.
    ScannerUnavailable(String),
    /// Any other failure, with its message.
    Other(String),
}

} // verus!
