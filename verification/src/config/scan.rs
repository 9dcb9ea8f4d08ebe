//! Detecting what kind of application a directory holds. The directory
//! probe itself is I/O and stays with the caller, which reports what it
//! found as plain facts.

use vstd::prelude::*;

verus! {

/// The kind of application a directory was recognized as.
pub enum ApplicationType {
    Rust,
    Unknown,
}

/// Classifies a directory as a Rust application when it holds a Cargo
/// manifest.
pub fn application_rust(has_cargo_manifest: bool) -> (r: Option<ApplicationType>)
    ensures
        has_cargo_manifest <==> r == Some(ApplicationType::Rust),
        !has_cargo_manifest <==> r is None,
{
    if has_cargo_manifest {
        Some(ApplicationType::Rust)
    } else {
        None
    }
}

} // verus!
