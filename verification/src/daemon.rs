//! Errors of the watch loop around the engine. The loop itself — polling
//! the workbook file, sending the changeset, persisting the snapshot — is
//! I/O and lives outside the library; its error taxonomy lives here so that
//! every layer speaks one language.

use vstd::prelude::*;

verus! {

use crate::excel::WorkbookError;

#[verifier::external_type_specification]
#[verifier::external_body]
pub struct ExIoError(std::io::Error);

/// A watch-loop failure: the interrupt handler could not be installed, the
/// watched file could not be read or written, or the workbook engine
/// reported an error.
#[derive(Debug)]
pub enum DaemonError {
    SetSignalError,
    IoError(std::io::Error),
    WorkBookError(WorkbookError),
}

impl From<std::io::Error> for DaemonError {
    /// An I/O failure maps onto `IoError`.
    fn from(error: std::io::Error) -> (r: Self) {
        DaemonError::IoError(error)
    }
}

impl vstd::std_specs::convert::FromSpecImpl<std::io::Error> for DaemonError {
    open spec fn obeys_from_spec() -> bool {
        true
    }

    open spec fn from_spec(v: std::io::Error) -> Self {
        DaemonError::IoError(v)
    }
}

impl From<WorkbookError> for DaemonError {
    /// An engine failure maps onto `WorkBookError`.
    fn from(error: WorkbookError) -> (r: Self) {
        DaemonError::WorkBookError(error)
    }
}

impl vstd::std_specs::convert::FromSpecImpl<WorkbookError> for DaemonError {
    open spec fn obeys_from_spec() -> bool {
        true
    }

    open spec fn from_spec(v: WorkbookError) -> Self {
        DaemonError::WorkBookError(v)
    }
}

} // verus!
