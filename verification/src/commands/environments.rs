//! The environment commands' data: the command tree the caller dispatches
//! on.

use vstd::prelude::*;

verus! {

/// The `environments` command group.
pub struct Environments {
    pub command: Option<Commands>,
}

/// One environment subcommand.
pub enum Commands {
    Create(Create),
    List(List),
    Delete(Delete),
}

/// Arguments of `environments create`.
pub struct Create {
    pub name: String,
    pub copy_from: Option<String>,
}

/// Arguments of `environments list`.
pub struct List {}

/// Arguments of `environments delete`.
pub struct Delete {
    pub name: String,
    pub no_confirm: Option<bool>,
}

} // verus!
