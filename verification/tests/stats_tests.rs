use molnctl::events::BuildStreamItem;
use molnctl::stats::BuildStats;
use molnctl::summary::summarize;

fn vertex(digest: &str, name: &str, started: bool, completed: bool, cached: bool) -> BuildStreamItem {
    BuildStreamItem::Vertex {
        digest: digest.to_string(),
        name: name.to_string(),
        started,
        completed,
        cached,
    }
}

#[test]
fn three_steps_one_cached() {
    // Three numbered steps reported started then completed in order; the
    // second is a cache hit.
    let mut stats = BuildStats::new();
    stats.apply(&vertex("d1", "[1/3] FROM alpine", true, false, false), 1000);
    stats.apply(&vertex("d1", "[1/3] FROM alpine", true, true, false), 1100);
    stats.apply(&vertex("d2", "[2/3] COPY . .", true, false, false), 1200);
    stats.apply(&vertex("d2", "[2/3] COPY . .", true, true, true), 1300);
    stats.apply(&vertex("d3", "[3/3] RUN make", true, false, false), 1400);
    stats.apply(&vertex("d3", "[3/3] RUN make", true, true, false), 1500);
    assert_eq!(stats.total_steps(), 3);
    assert_eq!(stats.current_step(), 3);
    assert_eq!(stats.cache_hits(), 1);
    assert_eq!(stats.cache_misses(), 2);
    assert_eq!(stats.layers_processed(), 3);
    assert_eq!(stats.build_start_time_ms(), Some(1000));
    let summary = summarize(&stats, 3500);
    assert_eq!(
        summary,
        "Build statistics:\n  3 Dockerfile steps, 3 layers total\n  1 cached, 2 built, 33.3% cache hit rate\n  Image ready, 2.5s total build time"
    );
}

#[test]
fn completion_reclassified_as_cached() {
    // A step first reported as freshly built, later re-reported as cached:
    // the counters are reconciled, not double-counted.
    let mut stats = BuildStats::new();
    stats.apply(&vertex("d1", "[1/1] RUN make", true, true, false), 0);
    assert_eq!(stats.cache_hits(), 0);
    assert_eq!(stats.cache_misses(), 1);
    stats.apply(&vertex("d1", "[1/1] RUN make", true, true, true), 10);
    assert_eq!(stats.cache_hits(), 1);
    assert_eq!(stats.cache_misses(), 0);
    assert_eq!(stats.layers_processed(), 1);
}

#[test]
fn repeated_identical_completion_is_noop() {
    // Reprocessing an already-seen (identity, cached) pair changes nothing.
    let mut stats = BuildStats::new();
    stats.apply(&vertex("d1", "[1/1] RUN make", true, true, true), 0);
    let hits = stats.cache_hits();
    let misses = stats.cache_misses();
    let layers = stats.layers_processed();
    stats.apply(&vertex("d1", "[1/1] RUN make", true, true, true), 50);
    assert_eq!(stats.cache_hits(), hits);
    assert_eq!(stats.cache_misses(), misses);
    assert_eq!(stats.layers_processed(), layers);
}

#[test]
fn oscillating_cache_state_stays_consistent() {
    // A backend reclassifying the same step back and forth: the counters
    // follow the latest report and never drift.
    let mut stats = BuildStats::new();
    stats.apply(&vertex("d1", "[1/1] RUN make", true, true, false), 0);
    stats.apply(&vertex("d1", "[1/1] RUN make", true, true, true), 1);
    stats.apply(&vertex("d1", "[1/1] RUN make", true, true, false), 2);
    assert_eq!(stats.cache_hits(), 0);
    assert_eq!(stats.cache_misses(), 1);
    assert_eq!(stats.layers_processed(), 1);
    let e = stats.event_at(0);
    assert!(!e.cached);
}

#[test]
fn single_identity_counted_once() {
    // However often one identity reports completion, it is counted once.
    let mut stats = BuildStats::new();
    for i in 0..10u64 {
        let cached = i % 2 == 0;
        stats.apply(&vertex("d1", "[1/2] RUN step", true, true, cached), i);
    }
    assert_eq!(stats.cache_hits() + stats.cache_misses(), 1);
    assert_eq!(stats.layers_processed(), 1);
}

#[test]
fn interleaved_identities_counted_each_once() {
    // Repeated, interleaved reports from three identities: the counters
    // equal the number of distinct identities.
    let mut stats = BuildStats::new();
    let order = ["a", "b", "c", "b", "a", "c", "c", "a", "b"];
    for (i, d) in order.iter().enumerate() {
        stats.apply(&vertex(d, "[1/3] RUN x", true, true, i % 2 == 0), i as u64);
    }
    assert_eq!(stats.cache_hits() + stats.cache_misses(), 3);
    assert_eq!(stats.layers_processed(), 3);
    assert_eq!(stats.tracked_layer_identities(), 3);
}

#[test]
fn inspection_attributes_base_layers() {
    // The image has five layers but only three were tracked: the two
    // missing ones are base layers, counted as cache hits.
    let mut stats = BuildStats::new();
    stats.apply(&vertex("d1", "[1/3] FROM alpine", true, true, false), 0);
    stats.apply(&vertex("d2", "[2/3] COPY . .", true, true, false), 1);
    stats.apply(&vertex("d3", "[3/3] RUN make", true, true, true), 2);
    let hits_before = stats.cache_hits();
    let layers_before = stats.layers_processed();
    stats.reconcile_inspection(123456, 5);
    assert_eq!(stats.base_image_layers(), 2);
    assert_eq!(stats.cache_hits(), hits_before + 2);
    assert_eq!(stats.layers_processed(), layers_before + 2);
    assert_eq!(stats.total_image_size(), 123456);
}

#[test]
fn inspection_with_no_extra_layers() {
    let mut stats = BuildStats::new();
    stats.apply(&vertex("d1", "[1/1] RUN make", true, true, false), 0);
    stats.reconcile_inspection(999, 1);
    assert_eq!(stats.base_image_layers(), 0);
    assert_eq!(stats.cache_hits(), 0);
    assert_eq!(stats.cache_misses(), 1);
    assert_eq!(stats.total_image_size(), 999);
}

#[test]
fn downloads_and_sizes() {
    let mut stats = BuildStats::new();
    stats.apply(
        &BuildStreamItem::Download { digest: "sha256:aa".to_string(), size: Some(2048) },
        0,
    );
    stats.apply(&BuildStreamItem::Download { digest: "sha256:bb".to_string(), size: None }, 1);
    assert_eq!(stats.layers_downloaded(), 2);
    assert_eq!(stats.total_image_size(), 2048);
}

#[test]
fn log_lines_deduplicated_per_identity() {
    let mut stats = BuildStats::new();
    stats.apply(&vertex("d1", "[1/1] RUN make", true, false, false), 0);
    stats.apply(
        &BuildStreamItem::LogLine { digest: "d1".to_string(), text: "  compiling  ".to_string() },
        1,
    );
    stats.apply(
        &BuildStreamItem::LogLine { digest: "d1".to_string(), text: "compiling".to_string() },
        2,
    );
    let e = stats.event_at(0);
    assert_eq!(e.logs, vec!["compiling".to_string()]);
    // Both raw lines still reach the build log.
    assert_eq!(stats.log_count(), 2);
}

#[test]
fn unnumbered_label_leaves_ordinals_alone() {
    let mut stats = BuildStats::new();
    stats.apply(&vertex("d1", "[internal] load build definition", true, false, false), 5);
    assert_eq!(stats.total_steps(), 0);
    assert_eq!(stats.current_step(), 0);
    assert_eq!(stats.build_start_time_ms(), None);
}

#[test]
fn summary_with_base_layers_and_size() {
    let mut stats = BuildStats::new();
    stats.apply(&vertex("d1", "[1/2] FROM alpine", true, true, false), 1000);
    stats.apply(&vertex("d2", "[2/2] RUN make", true, true, false), 1100);
    stats.reconcile_inspection(1536, 4);
    let summary = summarize(&stats, 62000);
    assert_eq!(
        summary,
        "Build statistics:\n  2 Dockerfile steps, 4 layers total\n  2 cached (2 base), 2 built, 50.0% cache hit rate\n  1.5 KB final image, 1.0m total build time"
    );
}

#[test]
fn empty_aggregate_summary() {
    let stats = BuildStats::new();
    let summary = summarize(&stats, 0);
    assert_eq!(
        summary,
        "Build statistics:\n  Build steps, 0 layers total\n  Building layers, 0.0% cache hit rate\n  Image ready, Build complete"
    );
}
