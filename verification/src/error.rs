//! The failure taxonomy: one variant for each way a run can go wrong, from
//! the transport up to a single field access.

use vstd::prelude::*;

verus! {

/// Why an operation failed.
///
/// `Network` covers the transport and the building of the request URL;
/// `Parse` an input that is not JSON, with the decoder's position; `InvalidShape`
/// a document whose root is not an object; `FieldAccess` a required path that
/// is absent or of the wrong type; `InvalidUrl` a value that should be a URL
/// and is not; `Io` a failure to write the persisted file.
#[derive(Debug, Clone, Copy, PartialEq, Eq, Structural)]
pub enum CaseError {
    Network,
    Parse { line: usize, column: usize },
    InvalidShape,
    FieldAccess,
    InvalidUrl,
    Io,
}

} // verus!
