//! The secret commands' data: the command tree the caller dispatches on.

use vstd::prelude::*;

verus! {

/// The `secrets` command group.
pub struct Secrets {
    pub command: Option<Commands>,
}

/// One secret subcommand.
pub enum Commands {
    Create(Create),
    List(List),
    Delete(Delete),
}

/// Arguments of `secrets create`.
pub struct Create {
    pub name: String,
    pub env: String,
    pub stdin: Option<bool>,
}

/// Arguments of `secrets list`.
pub struct List {
    pub env: String,
}

/// Arguments of `secrets delete`.
pub struct Delete {
    pub name: String,
    pub env: String,
    pub no_confirm: Option<bool>,
}

} // verus!
