//! What the transcription client decides before it hands a request to its
//! backend.

use vstd::prelude::*;

use crate::error::TranscriptionError;

verus! {

/// Whether a backend may be asked to transcribe: where it is not ready the
/// request is refused with an error that names the backend.
pub fn check_ready(backend_name: &str, ready: bool) -> (r: Result<(), TranscriptionError>)
    ensures
        ready ==> r is Ok,
        !ready ==> (r matches Err(TranscriptionError::BackendNotAvailable(m)) && m@
            == backend_name@),
{
    if ready {
        Ok(())
    } else {
        Err(TranscriptionError::BackendNotAvailable(String::from_str(backend_name)))
    }
}

} // verus!
