//! Plain data types exchanged with the control plane: tenants, projects,
//! environments, secrets and the wrappers used when listing them. The
//! transport and (de)serialization around them live outside the library.

use vstd::prelude::*;

verus! {

/// An organization-level tenant.
pub struct Tenant {
    pub id: String,
    pub name: String,
    pub billing_email: String,
}

/// Response listing the caller's tenants.
pub struct ListTenantsResponse {
    pub tenants: Vec<Tenant>,
}

/// A project inside a tenant.
pub struct Project {
    pub id: String,
    pub name: String,
    pub tenant_id: String,
    pub created_at: String,
}

/// Response listing a tenant's projects.
pub struct ListProjectsResponse {
    pub projects: Vec<Project>,
}

/// Request creating a project.
pub struct CreateProjectRequest {
    pub name: String,
}

/// Response to creating a project.
pub struct CreateProjectResponse {
    pub id: String,
    pub name: String,
    pub tenant_id: String,
    pub created_at: String,
}

/// An environment inside a project.
pub struct Environment {
    pub id: String,
    pub name: String,
    pub project_id: String,
    pub created_at: String,
}

/// Response listing a project's environments.
pub struct ListEnvironmentsResponse {
    pub environments: Vec<Environment>,
}

/// Response to creating an environment.
pub struct CreateEnvironmentResponse {
    pub name: String,
    pub copy_from: DisplayOption<String>,
}

/// A named volume a service can mount.
pub struct Volume {
    pub name: String,
}

/// A mount of a named volume at a path.
pub struct VolumeMount {
    pub volume_name: String,
    pub path: String,
}

/// A container port, optionally published.
pub struct Port {
    pub target: u16,
    pub publish: bool,
}

/// Response listing an environment's secrets.
pub struct ListSecretsResponse {
    pub secrets: Vec<Secret>,
}

/// A secret, by name only; values never travel back.
pub struct Secret {
    pub name: String,
}

/// An optional value displayed as its content or nothing.
pub struct DisplayOption<T>(pub Option<T>);

/// A list displayed space-separated.
pub struct DisplayVec<T>(pub Vec<T>);

} // verus!
