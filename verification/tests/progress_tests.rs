use molnctl::events::BuildStreamItem;
use molnctl::progress::{classify_output, render_output_line, render_status, render_vertex};
use molnctl::stats::BuildStats;

fn vertex(digest: &str, name: &str, started: bool, completed: bool, cached: bool) -> BuildStreamItem {
    BuildStreamItem::Vertex {
        digest: digest.to_string(),
        name: name.to_string(),
        started,
        completed,
        cached,
    }
}

#[test]
fn vertex_message_for_numbered_step() {
    let mut stats = BuildStats::new();
    stats.apply(&vertex("d1", "[1/3] FROM alpine", true, true, false), 0);
    stats.apply(&vertex("d2", "[2/3] COPY . .", true, false, false), 1);
    let msg = render_vertex(&stats, "[2/3] COPY . .", false, false);
    assert_eq!(msg.as_deref(), Some("[build] 2/3: COPY . ., 0.0% cached"));
}

#[test]
fn vertex_message_for_cached_step() {
    let mut stats = BuildStats::new();
    stats.apply(&vertex("d1", "[1/2] FROM alpine", true, true, true), 0);
    let msg = render_vertex(&stats, "[1/2] FROM alpine", true, true);
    assert_eq!(msg.as_deref(), Some("[cached] 1/2: FROM alpine, 100.0% cached"));
}

#[test]
fn vertex_message_for_phases() {
    let stats = BuildStats::new();
    assert_eq!(
        render_vertex(&stats, "load build context", false, false).as_deref(),
        Some("Loading: load build context")
    );
    assert_eq!(
        render_vertex(&stats, "resolving metadata for alpine", false, false).as_deref(),
        Some("Resolving image metadata...")
    );
    assert_eq!(
        render_vertex(&stats, "exporting layers to oci", false, false).as_deref(),
        Some("Exporting: exporting layers to oci")
    );
    assert_eq!(
        render_vertex(&stats, "[internal] settings", false, false),
        None
    );
    assert_eq!(
        render_vertex(&stats, "copy /context", false, false).as_deref(),
        Some("Working: copy /context")
    );
}

#[test]
fn status_messages() {
    assert_eq!(render_status("exporting to image").as_deref(), Some("Exporting layers..."));
    assert_eq!(render_status("writing image sha256:x").as_deref(), Some("Writing image..."));
    assert_eq!(render_status("naming to docker.io/x").as_deref(), Some("Tagging image..."));
    assert_eq!(render_status("unrelated"), None);
}

#[test]
fn output_classification() {
    assert_eq!(classify_output("RUN go build").as_deref(), Some("Executing build steps..."));
    assert_eq!(classify_output("FROM alpine").as_deref(), Some("Pulling base image..."));
    assert_eq!(classify_output("  free text  ").as_deref(), Some("> free text"));
    assert_eq!(classify_output("   "), None);
}

#[test]
fn classic_line_messages() {
    let mut stats = BuildStats::new();
    stats.apply(&vertex("d1", "[1/2] FROM alpine", true, true, true), 0);
    assert_eq!(
        render_output_line(&stats, "STEP 2/2: RUN make").as_deref(),
        Some("Step 2/2: RUN make, 100.0% cached")
    );
    assert_eq!(
        render_output_line(&stats, "--> Using cache 0dca35029b5a77fe").as_deref(),
        Some("Reusing cached layer 0dca3502, 1/1 cached")
    );
    assert_eq!(
        render_output_line(&stats, "--> e63fd7e7b356").as_deref(),
        Some("Layer e63fd7e7 built, 1/1 from cache")
    );
    assert_eq!(
        render_output_line(&stats, "Successfully built 59c90a041ff7").as_deref(),
        Some("Build completed, ID 59c90a04, 100.0% cached")
    );
    assert_eq!(
        render_output_line(&stats, "Trying to pull docker.io/library/alpine:latest...").as_deref(),
        Some("Pulling docker.io/library/alpine:latest, layer 2")
    );
    assert_eq!(
        render_output_line(&stats, "Copying blob sha256:fe07684b16b8 copying").as_deref(),
        Some("Downloading layer sha256:f, 0 layers total")
    );
    assert_eq!(
        render_output_line(&stats, "COMMIT docker.io/library/test:latest").as_deref(),
        Some("Committing image, 1 layers")
    );
    assert_eq!(
        render_output_line(&stats, "Successfully tagged docker.io/library/test:latest").as_deref(),
        Some("Tagged as docker.io/library/test:latest")
    );
    assert_eq!(render_output_line(&stats, "  "), None);
}
