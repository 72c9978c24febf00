use vstd::prelude::*;

verus! {

/// The failure kinds a service operation can report.  Every failure is
/// terminal for the single operation that raised it: there is no partial
/// success, and retry policy belongs to the transport adapter.
#[derive(Clone, Copy, PartialEq, Eq, Structural, Debug)]
pub enum Error {
    /// A requested id, or every candidate in an ancestor-resolution list,
    /// is absent from the chain or fragment pool known to the service.
    NotFound,
    /// The service has no valid state to answer from, such as a tip
    /// requested before any chain was loaded.
    Unavailable,
    /// A sink or stream terminated abnormally; the whole operation must
    /// be reissued.
    Failed,
    /// A protocol variant recognized in encoding but not supported here.
    Unimplemented,
}

impl Error {
    /// A short name for the error kind, for diagnostics.
    pub fn describe(&self) -> (r: &'static str)
        ensures
            r@ =~= match self {
                Error::NotFound => "not found"@,
                Error::Unavailable => "unavailable"@,
                Error::Failed => "failed"@,
                Error::Unimplemented => "unimplemented"@,
            },
    {
        match self {
            Error::NotFound => "not found",
            Error::Unavailable => "unavailable",
            Error::Failed => "failed",
            Error::Unimplemented => "unimplemented",
        }
    }
}

} // verus!
