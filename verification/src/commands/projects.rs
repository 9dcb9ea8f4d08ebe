//! The project commands' data: the command tree the caller dispatches on.

use vstd::prelude::*;

verus! {

/// The `projects` command group.
pub struct Projects {
    pub command: Option<Commands>,
}

/// One project subcommand.
pub enum Commands {
    Create(Create),
    List(List),
    Delete(Delete),
    Switch(Switch),
}

/// Arguments of `projects create`.
pub struct Create {
    pub name: String,
}

/// Arguments of `projects list`.
pub struct List {}

/// Arguments of `projects delete`.
pub struct Delete {
    pub name: String,
    pub no_confirm: Option<bool>,
}

/// Arguments of `projects switch`.
pub struct Switch {
    pub name: Option<String>,
}

} // verus!
