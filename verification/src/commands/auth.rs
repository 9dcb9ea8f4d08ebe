//! The authentication commands' data: the command tree the caller
//! dispatches on.

use vstd::prelude::*;

verus! {

/// The `auth` command group.
pub struct Auth {
    pub command: Option<Commands>,
}

/// One authentication subcommand.
pub enum Commands {
    Login(Login),
    Docker(Docker),
}

/// Arguments of `auth login`.
pub struct Login {}

/// Arguments of `auth docker`.
pub struct Docker {
    pub registry: String,
}

} // verus!
