use molnctl::parse::{
    extract_blob_id, extract_image_name, extract_tag_name, parse_step_info, parse_step_label,
};

#[test]
fn step_label_numbered() {
    let l = parse_step_label("[2/4] RUN go build").expect("should parse");
    assert_eq!(l.current, 2);
    assert_eq!(l.total, 4);
    assert_eq!(l.instruction, "RUN go build");
}

#[test]
fn step_label_internal_is_unnumbered() {
    assert!(parse_step_label("[internal] load metadata").is_none());
}

#[test]
fn step_label_without_bracket() {
    assert!(parse_step_label("RUN go build").is_none());
    assert!(parse_step_label("").is_none());
}

#[test]
fn step_label_without_slash() {
    assert!(parse_step_label("[3] FROM alpine").is_none());
}

#[test]
fn step_label_overflowing_ordinal() {
    assert!(parse_step_label("[99999999999/4] RUN x").is_none());
}

#[test]
fn step_label_empty_instruction() {
    let l = parse_step_label("[1/1]").expect("should parse");
    assert_eq!(l.current, 1);
    assert_eq!(l.total, 1);
    assert_eq!(l.instruction, "");
}

#[test]
fn step_info_classic_marker() {
    let l = parse_step_info("STEP 1/4: FROM alpine:latest").expect("should parse");
    assert_eq!(l.current, 1);
    assert_eq!(l.total, 4);
    assert_eq!(l.instruction, "FROM alpine:latest");
}

#[test]
fn step_info_rejects_malformed() {
    assert!(parse_step_info("STEP: FROM alpine").is_none());
    assert!(parse_step_info("STEP 14 FROM alpine").is_none());
    assert!(parse_step_info("STEP a/b: FROM alpine").is_none());
}

#[test]
fn image_name_from_pull_line() {
    assert_eq!(
        extract_image_name("Trying to pull docker.io/library/alpine:latest...").as_deref(),
        Some("docker.io/library/alpine:latest")
    );
    assert_eq!(
        extract_image_name("Trying to pull registry/img").as_deref(),
        Some("registry/img")
    );
    assert!(extract_image_name("no such phrase").is_none());
}

#[test]
fn tag_name_from_tagged_line() {
    assert_eq!(
        extract_tag_name("Successfully tagged docker.io/library/test-build:latest").as_deref(),
        Some("docker.io/library/test-build:latest")
    );
    assert!(extract_tag_name("nothing here").is_none());
}

#[test]
fn blob_id_from_copy_line() {
    assert_eq!(
        extract_blob_id("Copying blob sha256:fe07684b16b8 done").as_deref(),
        Some("sha256:fe07684b16b8")
    );
    assert_eq!(
        extract_blob_id("Copying blob sha256:abcdef").as_deref(),
        Some("sha256:abcdef")
    );
    assert!(extract_blob_id("Copying blob md5:abc").is_none());
}
