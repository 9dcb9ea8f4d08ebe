use molnctl::events::BuildStreamItem;
use molnctl::report::{failure_report, ordered_events};
use molnctl::stats::BuildStats;

fn vertex(digest: &str, name: &str, started: bool, completed: bool, cached: bool) -> BuildStreamItem {
    BuildStreamItem::Vertex {
        digest: digest.to_string(),
        name: name.to_string(),
        started,
        completed,
        cached,
    }
}

#[test]
fn transcript_after_midstream_failure() {
    // Two steps completed and one log line recorded before the stream
    // failed: the transcript shows both steps in order, the log line under
    // its step, the error line, and the failure context.
    let mut stats = BuildStats::new();
    stats.apply(&vertex("d1", "[1/2] FROM alpine", true, true, false), 1000);
    stats.apply(&vertex("d2", "[2/2] RUN make", true, true, false), 1200);
    stats.apply(
        &BuildStreamItem::LogLine { digest: "d2".to_string(), text: "making stuff".to_string() },
        1300,
    );
    stats.apply(&BuildStreamItem::ErrorLine { text: "boom".to_string() }, 1400);
    let lines = failure_report(&stats, 1500);
    assert_eq!(
        lines,
        vec![
            "[done]   1: [1/2] FROM alpine".to_string(),
            "[done]   2: [2/2] RUN make".to_string(),
            "[log]   3: making stuff".to_string(),
            "[error]   4: boom".to_string(),
            "Failure context:".to_string(),
            "  step 2/2 at failure".to_string(),
            "  2 layers processed before failure".to_string(),
            "  build ran for 0.5s before failing".to_string(),
        ]
    );
}

#[test]
fn internal_phases_precede_numbered_steps() {
    // Internal phases come first in name order; numbered steps follow by
    // ordinal regardless of arrival order.
    let mut stats = BuildStats::new();
    stats.apply(&vertex("n2", "[2/2] RUN make", true, false, false), 0);
    stats.apply(&vertex("ib", "[internal] load metadata", true, false, false), 1);
    stats.apply(&vertex("n1", "[1/2] FROM alpine", true, false, false), 2);
    stats.apply(&vertex("ia", "[internal] load build definition", true, false, false), 3);
    let ordered = ordered_events(&stats);
    let names: Vec<&str> = ordered.iter().map(|e| e.name.as_str()).collect();
    assert_eq!(
        names,
        vec![
            "[internal] load build definition",
            "[internal] load metadata",
            "[1/2] FROM alpine",
            "[2/2] RUN make",
        ]
    );
}

#[test]
fn unstarted_silent_steps_are_dropped() {
    // A step never started, without logs and not internal, is left out of
    // the transcript.
    let mut stats = BuildStats::new();
    stats.apply(&vertex("d1", "[1/2] FROM alpine", false, false, false), 0);
    stats.apply(&vertex("d2", "[2/2] RUN make", true, false, false), 1);
    let ordered = ordered_events(&stats);
    assert_eq!(ordered.len(), 1);
    assert_eq!(ordered[0].name, "[2/2] RUN make");
}

#[test]
fn numbered_ties_break_by_name() {
    let mut stats = BuildStats::new();
    stats.apply(&vertex("x", "[1/1] RUN beta", true, false, false), 0);
    stats.apply(&vertex("y", "[1/1] RUN alpha", true, false, false), 1);
    let ordered = ordered_events(&stats);
    assert_eq!(ordered[0].name, "[1/1] RUN alpha");
    assert_eq!(ordered[1].name, "[1/1] RUN beta");
}

#[test]
fn leftover_lines_keep_arrival_order() {
    // Raw output not attributable to a step is kept, classified, in its
    // original order; the image identifier is called out.
    let mut stats = BuildStats::new();
    stats.apply(&BuildStreamItem::OutputLine { text: "STEP 1/1: FROM alpine".to_string() }, 0);
    stats.apply(&BuildStreamItem::OutputLine { text: "plain note".to_string() }, 1);
    stats.apply(&BuildStreamItem::ImageId { text: "sha256:abc123".to_string() }, 2);
    let lines = failure_report(&stats, 10);
    assert_eq!(
        lines,
        vec![
            "[step]   1: STEP 1/1: FROM alpine".to_string(),
            "[out]   2: plain note".to_string(),
            "[image]   3: Final image sha256:abc123".to_string(),
            "Failure context:".to_string(),
        ]
    );
}

#[test]
fn attributed_log_lines_are_not_repeated() {
    // A raw line already shown under its step is not echoed again in the
    // leftover section.
    let mut stats = BuildStats::new();
    stats.apply(&vertex("d1", "[1/1] RUN make", true, false, false), 0);
    stats.apply(
        &BuildStreamItem::LogLine { digest: "d1".to_string(), text: "cc -O2 main.c".to_string() },
        1,
    );
    let lines = failure_report(&stats, 10);
    assert_eq!(
        lines,
        vec![
            "[run]   1: [1/1] RUN make".to_string(),
            "[log]   2: cc -O2 main.c".to_string(),
            "Failure context:".to_string(),
            "  step 1/1 at failure".to_string(),
            "  build ran for 0.0s before failing".to_string(),
        ]
    );
}
