use molnctl::commands::orgs::CreatePlan;
use molnctl::config::application::{Build, HttpService};
use molnctl::config::scan::{application_rust, ApplicationType};

#[test]
fn http_service_holds_port() {
    let s = HttpService::new(8080, Some(true));
    assert_eq!(s.container_port, Some(8080));
    assert_eq!(s.force_https, Some(true));
}

#[test]
fn build_source_from_url() {
    let b = Build::new(None, Some("registry/image:tag".to_string()));
    assert_eq!(b.docker_image_url.as_deref(), Some("registry/image:tag"));
    assert!(b.docker_image_path.is_none());
}

#[test]
fn build_source_from_path() {
    let b = Build::new(Some("./Dockerfile".to_string()), None);
    assert_eq!(b.docker_image_path.as_deref(), Some("./Dockerfile"));
    assert!(b.docker_image_url.is_none());
}

#[test]
fn rust_application_detection() {
    assert!(matches!(application_rust(true), Some(ApplicationType::Rust)));
    assert!(application_rust(false).is_none());
}

#[test]
fn org_plan_builder_collects_inputs() {
    let plan = CreatePlan::builder()
        .name(Some("acme"))
        .billing_email(Some("bill@acme.example"))
        .build()
        .expect("plan should build");
    assert_eq!(plan.name, "acme");
    assert_eq!(plan.billing_email, "bill@acme.example");
}

#[test]
fn org_plan_builder_keeps_unresolved_fields_empty() {
    let b = CreatePlan::builder().name(None).billing_email(None);
    assert_eq!(b.name, "");
    assert_eq!(b.billing_email, "");
}
