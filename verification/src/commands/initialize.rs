//! The top-level `initialize` command's data.

use vstd::prelude::*;

verus! {

/// Arguments of `initialize`.
pub struct Initialize {
    pub app_name: Option<String>,
    pub organization_id: Option<String>,
    pub cpus: Option<u8>,
    pub memory_mb: Option<usize>,
}

} // verus!
