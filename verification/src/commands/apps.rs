//! The app commands' data: the command tree the caller dispatches on.

use vstd::prelude::*;

verus! {

/// The `apps` command group.
pub struct Apps {
    pub command: Option<Commands>,
}

/// One app subcommand.
pub enum Commands {
    Deploy(Deploy),
    Initialize(Initialize),
}

/// Arguments of `apps deploy`.
pub struct Deploy {
    pub name: String,
    pub image: Option<String>,
    pub no_confirm: Option<bool>,
}

/// Arguments of `apps initialize`.
pub struct Initialize {
    pub app_name: Option<String>,
    pub organization_id: Option<String>,
    pub cpus: Option<u8>,
    pub memory_mb: Option<usize>,
}

} // verus!
