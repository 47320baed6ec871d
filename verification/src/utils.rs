//! Small helpers around the pipeline.

use vstd::prelude::*;

verus! {

/// Relies on `std::path::Path::exists`: whether something exists at the
/// given filesystem path. Nothing can be promised of the answer, which
/// depends on the state of the disk at the moment of the call.
#[verifier::external_body]
fn path_exists(path: &str) -> bool {
    std::path::Path::new(path).exists()
}

/// Whether something exists at the given filesystem path. The answer
/// depends on the state of the disk, so no more can be said of it.
pub fn file_exists(path: &str) -> bool {
    path_exists(path)
}

} // verus!
