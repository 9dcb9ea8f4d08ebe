pub mod apps;
pub mod auth;
pub mod environments;
pub mod initialize;
pub mod orgs;
pub mod projects;
pub mod secrets;
pub mod services;
pub mod tenants;
