//! The tenant commands' data: the command tree the caller dispatches on.

use vstd::prelude::*;

verus! {

/// The `tenants` command group.
pub struct Tenants {
    pub command: Option<Commands>,
}

/// One tenant subcommand.
pub enum Commands {
    List(List),
    Switch(Switch),
}

/// Arguments of `tenants list`.
pub struct List {}

/// Arguments of `tenants switch`.
pub struct Switch {
    pub tenant: Option<String>,
}

} // verus!
