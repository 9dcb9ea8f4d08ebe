//! The event vocabulary of the build engine: the per-step record kept for
//! every distinct step identity, the items a build backend's stream is
//! reduced to, and the tagged lines of the raw build log. Each executable
//! type has a mathematical model (`..Model`) that the contracts speak of.

use vstd::prelude::*;

use crate::parse::spec_step_label;

verus! {

/// One deduplicated build step, tracked per backend-assigned digest.
pub struct BuildEvent {
    /// Human-readable label, e.g. `"[2/4] RUN go build"`.
    pub name: String,
    /// Ordinal parsed from a `"[current/total]"` label, absent for
    /// internal or unnumbered steps.
    pub step_number: Option<u32>,
    /// Whether the step was ever reported started (monotonic).
    pub started: bool,
    /// Whether the step was ever reported completed (monotonic).
    pub completed: bool,
    /// Cached state of the most recent completion report.
    pub cached: bool,
    /// Distinct log lines attached to this step, in arrival order.
    pub logs: Vec<String>,
}

/// Mathematical model of a [`BuildEvent`].
#[verifier::ext_equal]
pub struct EventModel {
    pub name: Seq<char>,
    pub step_number: Option<u32>,
    pub started: bool,
    pub completed: bool,
    pub cached: bool,
    pub logs: Seq<Seq<char>>,
}

/// The views of a sequence of strings.
pub open spec fn seq_views(s: Seq<String>) -> Seq<Seq<char>> {
    s.map_values(|x: String| x@)
}

impl View for BuildEvent {
    type V = EventModel;

    open spec fn view(&self) -> EventModel {
        EventModel {
            name: self.name@,
            step_number: self.step_number,
            started: self.started,
            completed: self.completed,
            cached: self.cached,
            logs: seq_views(self.logs@),
        }
    }
}

/// The step ordinal a label yields, if it is a numbered step label.
pub open spec fn step_num_of(name: Seq<char>) -> Option<u32> {
    match spec_step_label(name) {
        Some(l) => Some(l.0),
        None => None,
    }
}

/// The record a fresh identity starts from, before its first report is
/// folded in.
pub open spec fn fresh_event(name: Seq<char>) -> EventModel {
    EventModel {
        name: name,
        step_number: step_num_of(name),
        started: false,
        completed: false,
        cached: false,
        logs: Seq::empty(),
    }
}

/// One report folded into an existing record: `started` and `completed`
/// are monotonic, `cached` follows the latest completion report, and a
/// step number is recorded once it first parses.
pub open spec fn upd_event(
    e: EventModel,
    name: Seq<char>,
    started: bool,
    completed: bool,
    cached: bool,
) -> EventModel {
    EventModel {
        name: e.name,
        step_number: if e.step_number is None {
            step_num_of(name)
        } else {
            e.step_number
        },
        started: e.started || started,
        completed: e.completed || completed,
        cached: if completed {
            cached
        } else {
            e.cached
        },
        logs: e.logs,
    }
}

/// A verified element-wise copy of a string vector.
pub fn clone_strings(v: &Vec<String>) -> (r: Vec<String>)
    ensures
        r@ == v@,
{
    let n = v.len();
    let mut r: Vec<String> = Vec::new();
    let mut i: usize = 0;
    while i < n
        invariant
            i <= n,
            n == v@.len(),
            r@ == v@.subrange(0, i as int),
        decreases n - i,
    {
        r.push(v[i].clone());
        assert(r@ =~= v@.subrange(0, i + 1));
        i += 1;
    }
    assert(r@ =~= v@);
    r
}

impl BuildEvent {
    /// A verified field-wise copy.
    pub fn duplicate(&self) -> (r: BuildEvent)
        ensures
            r@ == self@,
            r.name@ == self.name@,
    {
        BuildEvent {
            name: self.name.clone(),
            step_number: self.step_number,
            started: self.started,
            completed: self.completed,
            cached: self.cached,
            logs: clone_strings(&self.logs),
        }
    }
}

/// How a line of the raw build log was classified when it arrived.
#[derive(Clone, Copy, PartialEq, Eq, Structural, Debug)]
pub enum LogKind {
    /// Ordinary output or status text.
    Output,
    /// A line the backend reported as an error.
    Error,
    /// The final image identifier.
    ImageId,
}

/// One line of the raw build log.
pub struct LogRecord {
    /// Classification used by the diagnostic reporter.
    pub kind: LogKind,
    /// The line as received.
    pub text: String,
}

/// Mathematical model of a [`LogRecord`].
pub struct LogModel {
    pub kind: LogKind,
    pub text: Seq<char>,
}

impl View for LogRecord {
    type V = LogModel;

    open spec fn view(&self) -> LogModel {
        LogModel { kind: self.kind, text: self.text@ }
    }
}

/// The views of a sequence of log records.
pub open spec fn log_views(s: Seq<LogRecord>) -> Seq<LogModel> {
    s.map_values(|r: LogRecord| r@)
}

/// One item read off the build backend's stream, reduced to plain values.
pub enum BuildStreamItem {
    /// A step/vertex lifecycle update.
    Vertex { digest: String, name: String, started: bool, completed: bool, cached: bool },
    /// A log line attached to a step identity.
    LogLine { digest: String, text: String },
    /// A blob/layer download notice, with its size when known.
    Download { digest: String, size: Option<u64> },
    /// A backend status line.
    StatusLine { text: String },
    /// The final image identifier.
    ImageId { text: String },
    /// An unstructured output line.
    OutputLine { text: String },
    /// An unstructured error line.
    ErrorLine { text: String },
}

/// Mathematical model of a [`BuildStreamItem`].
pub enum ItemModel {
    Vertex { digest: Seq<char>, name: Seq<char>, started: bool, completed: bool, cached: bool },
    LogLine { digest: Seq<char>, text: Seq<char> },
    Download { digest: Seq<char>, size: Option<u64> },
    StatusLine { text: Seq<char> },
    ImageId { text: Seq<char> },
    OutputLine { text: Seq<char> },
    ErrorLine { text: Seq<char> },
}

impl View for BuildStreamItem {
    type V = ItemModel;

    open spec fn view(&self) -> ItemModel {
        match self {
            BuildStreamItem::Vertex { digest, name, started, completed, cached } => {
                ItemModel::Vertex {
                    digest: digest@,
                    name: name@,
                    started: *started,
                    completed: *completed,
                    cached: *cached,
                }
            },
            BuildStreamItem::LogLine { digest, text } => {
                ItemModel::LogLine { digest: digest@, text: text@ }
            },
            BuildStreamItem::Download { digest, size } => {
                ItemModel::Download { digest: digest@, size: *size }
            },
            BuildStreamItem::StatusLine { text } => ItemModel::StatusLine { text: text@ },
            BuildStreamItem::ImageId { text } => ItemModel::ImageId { text: text@ },
            BuildStreamItem::OutputLine { text } => ItemModel::OutputLine { text: text@ },
            BuildStreamItem::ErrorLine { text } => ItemModel::ErrorLine { text: text@ },
        }
    }
}

} // verus!
