//! Application-level configuration data: the service settings a project
//! directory declares. Reading and writing the configuration file is the
//! caller's concern; the library holds the values and their invariants.

use vstd::prelude::*;

verus! {

/// The configuration an application directory declares.
pub struct ApplicationConfigInner {
    pub name: Option<String>,
    pub image: Option<String>,
    pub http_service: Option<HttpService>,
    pub build: Option<Build>,
}

/// HTTP exposure settings of a service.
pub struct HttpService {
    pub container_port: Option<u16>,
    pub force_https: Option<bool>,
}

/// Where a service's image comes from: exactly one of a prebuilt image
/// URL or a local build path.
pub struct Build {
    pub docker_image_url: Option<String>,
    pub docker_image_path: Option<String>,
}

impl HttpService {
    /// An HTTP service on the given container port.
    pub fn new(container_port: u16, force_https: Option<bool>) -> (r: HttpService)
        ensures
            r.container_port == Some(container_port),
            r.force_https == force_https,
    {
        HttpService { container_port: Some(container_port), force_https }
    }
}

impl Build {
    /// A build source. Exactly one of the two origins must be given.
    pub fn new(docker_image_path: Option<String>, docker_image_url: Option<String>) -> (r: Build)
        requires
            docker_image_url is Some <==> docker_image_path is None,
        ensures
            r.docker_image_url == docker_image_url,
            r.docker_image_path == docker_image_path,
    {
        Build { docker_image_url, docker_image_path }
    }
}

} // verus!
