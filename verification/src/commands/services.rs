//! The service commands' data: the command tree the caller dispatches on.

use vstd::prelude::*;

verus! {

/// The `services` command group.
pub struct Services {
    pub command: Option<Commands>,
}

/// One service subcommand.
pub enum Commands {
    Deploy(Deploy),
    Initialize(Initialize),
    ImageName(ImageName),
    List(List),
    Delete(Delete),
}

/// Arguments of `services deploy`.
pub struct Deploy {
    pub env: Option<String>,
    pub manifest: String,
    pub no_confirm: Option<bool>,
}

/// Arguments of `services initialize`.
pub struct Initialize {
    pub manifest: String,
}

/// Arguments of `services image-name`.
pub struct ImageName {
    pub service: String,
    pub tag: Option<String>,
    pub update_manifest: Option<String>,
    pub image_name: Option<String>,
}

/// Arguments of `services list`.
pub struct List {
    pub env: String,
}

/// Arguments of `services delete`.
pub struct Delete {
    pub name: String,
    pub env: String,
    pub no_confirm: Option<bool>,
}

/// Arguments of `services logs`.
pub struct Logs {
    pub environment: String,
    pub manifest: String,
}

} // verus!
