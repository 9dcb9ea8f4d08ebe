//! The statistics aggregator: owns the aggregate build state and folds one
//! stream item at a time into it, deduplicating step reports by identity and
//! reconciling the cache counters when a backend re-reports a step with a
//! different cached state. Every transition is verified against the
//! mathematical model in [`crate::model`].

use vstd::prelude::*;
use vstd::string::StrSliceExecFns;

use crate::events::{
    clone_strings, log_views, seq_views, BuildEvent, BuildStreamItem, LogKind, LogModel, LogRecord,
};
use crate::model::{
    empty_model, lemma_apply_preserves_wf, lemma_hits_insert, spec_apply, spec_apply_log,
    spec_apply_vertex, spec_push_log, spec_reconcile, wf, StatsModel,
};
use crate::parse::parse_step_label;
use crate::tables::AssocTable;
use crate::text::{chars_of, str_eq, trim_bounds};

verus! {

/// Whether `t` already occurs verbatim among `logs`.
pub(crate) fn has_log(logs: &Vec<String>, t: &str) -> (r: bool)
    ensures
        r == seq_views(logs@).contains(t@),
{
    let n = logs.len();
    let mut i: usize = 0;
    while i < n
        invariant
            i <= n,
            n == logs@.len(),
            forall|k: int| 0 <= k < i ==> seq_views(logs@)[k] != t@,
        decreases n - i,
    {
        assert(seq_views(logs@)[i as int] == logs@[i as int]@);
        if str_eq(logs[i].as_str(), t) {
            return true;
        }
        i += 1;
    }
    assert(!seq_views(logs@).contains(t@)) by {
        if seq_views(logs@).contains(t@) {
            let j = choose|j: int| 0 <= j < seq_views(logs@).len() && seq_views(logs@)[j] == t@;
            assert(seq_views(logs@)[j] != t@);
        }
    }
    false
}

/// The step ordinal of a numbered label, if the label carries one.
fn step_num_exec(name: &str) -> (r: Option<u32>)
    ensures
        r == crate::events::step_num_of(name@),
{
    match parse_step_label(name) {
        Some(l) => Some(l.current),
        None => None,
    }
}

proof fn lemma_log_views_push(s: Seq<LogRecord>, r: LogRecord)
    ensures
        log_views(s.push(r)) == log_views(s).push(r@),
{
    assert(log_views(s.push(r)) =~= log_views(s).push(r@));
}

proof fn lemma_seq_views_push(s: Seq<String>, x: String)
    ensures
        seq_views(s.push(x)) == seq_views(s).push(x@),
{
    assert(seq_views(s.push(x)) =~= seq_views(s).push(x@));
}

/// The aggregate statistics of one build invocation.
///
/// Created empty when the build starts, mutated once per stream item by
/// [`BuildStats::apply`], optionally adjusted once by
/// [`BuildStats::reconcile_inspection`] after a successful stream, and read
/// by the presenter, the summary formatter and the diagnostic reporter.
pub struct BuildStats {
    total_steps: u32,
    current_step: u32,
    cache_hits: u64,
    cache_misses: u64,
    layers_processed: u64,
    total_image_size: u64,
    layers_downloaded: u64,
    base_image_layers: u64,
    build_start_time_ms: Option<u64>,
    vertex_states: AssocTable<bool>,
    build_events: AssocTable<BuildEvent>,
    build_log: Vec<LogRecord>,
}

impl View for BuildStats {
    type V = StatsModel;

    closed spec fn view(&self) -> StatsModel {
        StatsModel {
            total_steps: self.total_steps,
            current_step: self.current_step,
            cache_hits: self.cache_hits as nat,
            cache_misses: self.cache_misses as nat,
            layers_processed: self.layers_processed as nat,
            total_image_size: self.total_image_size as nat,
            layers_downloaded: self.layers_downloaded as nat,
            base_image_layers: self.base_image_layers as nat,
            build_start_time: self.build_start_time_ms,
            vertex_states: self.vertex_states@,
            build_events: self.build_events@,
            build_log: log_views(self.build_log@),
        }
    }
}

impl BuildStats {
    /// The aggregate is internally consistent: its tables are well-formed
    /// and its counters satisfy the model invariant.
    pub closed spec fn inv(&self) -> bool {
        &&& self.vertex_states.wf()
        &&& self.build_events.wf()
        &&& wf(self@)
    }

    /// A well-formed aggregate satisfies the model invariant.
    pub proof fn lemma_inv_wf(&self)
        requires
            self.inv(),
        ensures
            wf(self@),
    {
    }

    /// The empty aggregate a build starts from.
    pub fn new() -> (r: BuildStats)
        ensures
            r.inv(),
            r@ == empty_model(),
    {
        let r = BuildStats {
            total_steps: 0,
            current_step: 0,
            cache_hits: 0,
            cache_misses: 0,
            layers_processed: 0,
            total_image_size: 0,
            layers_downloaded: 0,
            base_image_layers: 0,
            build_start_time_ms: None,
            vertex_states: AssocTable::new(),
            build_events: AssocTable::new(),
            build_log: Vec::new(),
        };
        proof {
            assert(r@.vertex_states.dom() =~= Set::<Seq<char>>::empty());
            assert(r@.vertex_states.dom().filter(|x: Seq<char>| r@.vertex_states[x]) =~= Set::<
                Seq<char>,
            >::empty());
            assert(log_views(r.build_log@) =~= Seq::<LogModel>::empty());
            assert(r@ =~= empty_model());
        }
        r
    }

    /// Number of distinct identities counted as completed so far.
    pub fn tracked_layer_identities(&self) -> (r: usize)
        requires
            self.inv(),
        ensures
            r == self@.vertex_states.dom().len(),
    {
        proof {
            self.vertex_states.lemma_view();
        }
        self.vertex_states.len()
    }

    /// Folds one stream item into the aggregate.
    ///
    /// The identity headroom bound on step updates exists only so the
    /// machine counters cannot overflow; a build has far fewer distinct
    /// steps.
    pub fn apply(&mut self, item: &BuildStreamItem, now_ms: u64)
        requires
            old(self).inv(),
            item matches BuildStreamItem::Vertex { .. } ==> old(
                self,
            )@.vertex_states.dom().len() < u32::MAX,
        ensures
            final(self).inv(),
            final(self)@ == spec_apply(old(self)@, item@, now_ms),
    {
        match item {
            BuildStreamItem::Vertex { digest, name, started, completed, cached } => {
                self.apply_vertex(
                    digest.as_str(),
                    name.as_str(),
                    *started,
                    *completed,
                    *cached,
                    now_ms,
                );
            },
            BuildStreamItem::LogLine { digest, text } => {
                self.apply_log(digest.as_str(), text.as_str());
            },
            BuildStreamItem::Download { digest: _, size } => {
                self.apply_download(*size);
            },
            BuildStreamItem::StatusLine { text } => {
                self.push_log(LogKind::Output, text.as_str());
            },
            BuildStreamItem::ImageId { text } => {
                self.push_log(LogKind::ImageId, text.as_str());
            },
            BuildStreamItem::OutputLine { text } => {
                self.push_log(LogKind::Output, text.as_str());
            },
            BuildStreamItem::ErrorLine { text } => {
                self.push_log(LogKind::Error, text.as_str());
            },
        }
    }

    /// Folds a step/vertex update into the aggregate: the identity's record
    /// absorbs the report, a numbered label updates the step ordinals, and
    /// a completion is counted once per identity, with the counters
    /// reconciled when the reported cached state changed.
    pub fn apply_vertex(
        &mut self,
        digest: &str,
        name: &str,
        started: bool,
        completed: bool,
        cached: bool,
        now_ms: u64,
    )
        requires
            old(self).inv(),
            old(self)@.vertex_states.dom().len() < u32::MAX,
        ensures
            final(self).inv(),
            final(self)@ == spec_apply_vertex(
                old(self)@,
                digest@,
                name@,
                started,
                completed,
                cached,
                now_ms,
            ),
    {
        let ghost m0 = self@;
        proof {
            lemma_apply_preserves_wf(
                m0,
                crate::events::ItemModel::Vertex {
                    digest: digest@,
                    name: name@,
                    started: started,
                    completed: completed,
                    cached: cached,
                },
                now_ms,
            );
        }
        // Fold the report into the identity's record.
        match self.build_events.index_of(digest) {
            Some(i) => {
                let e0 = self.build_events.value_at(i);
                let step_number = if e0.step_number.is_none() {
                    step_num_exec(name)
                } else {
                    e0.step_number
                };
                let e1 = BuildEvent {
                    name: e0.name.clone(),
                    step_number,
                    started: e0.started || started,
                    completed: e0.completed || completed,
                    cached: if completed {
                        cached
                    } else {
                        e0.cached
                    },
                    logs: clone_strings(&e0.logs),
                };
                assert(e1@ == crate::events::upd_event(
                    m0.build_events[digest@],
                    name@,
                    started,
                    completed,
                    cached,
                ));
                self.build_events.replace_at(i, e1);
            },
            None => {
                let e1 = BuildEvent {
                    name: name.to_owned(),
                    step_number: step_num_exec(name),
                    started: started,
                    completed: completed,
                    cached: if completed {
                        cached
                    } else {
                        false
                    },
                    logs: Vec::new(),
                };
                assert(e1@ == crate::events::upd_event(
                    crate::events::fresh_event(name@),
                    name@,
                    started,
                    completed,
                    cached,
                ));
                self.build_events.insert_new(digest, e1);
            },
        }
        let ghost m1 = StatsModel {
            build_events: m0.build_events.insert(
                digest@,
                crate::events::upd_event(
                    if m0.build_events.contains_key(digest@) {
                        m0.build_events[digest@]
                    } else {
                        crate::events::fresh_event(name@)
                    },
                    name@,
                    started,
                    completed,
                    cached,
                ),
            ),
            ..m0
        };
        assert(self@ =~= m1);
        // Follow a numbered label's ordinals; start the clock once.
        match parse_step_label(name) {
            Some(l) => {
                self.current_step = l.current;
                self.total_steps = l.total;
                if self.build_start_time_ms.is_none() {
                    self.build_start_time_ms = Some(now_ms);
                }
            },
            None => {},
        }
        let ghost m2 = match crate::parse::spec_step_label(name@) {
            Some(l) => StatsModel {
                current_step: l.0,
                total_steps: l.1,
                build_start_time: if m1.build_start_time is None {
                    Some(now_ms)
                } else {
                    m1.build_start_time
                },
                ..m1
            },
            None => m1,
        };
        assert(self@ =~= m2);
        // Count a completion once per identity; reconcile a changed state.
        if completed {
            proof {
                lemma_hits_insert(m0.vertex_states, digest@, cached);
            }
            match self.vertex_states.index_of(digest) {
                None => {
                    self.vertex_states.insert_new(digest, cached);
                    if cached {
                        self.cache_hits = self.cache_hits + 1;
                    } else {
                        self.cache_misses = self.cache_misses + 1;
                    }
                    self.layers_processed = self.layers_processed + 1;
                },
                Some(i) => {
                    let prev = *self.vertex_states.value_at(i);
                    if prev != cached {
                        self.vertex_states.replace_at(i, cached);
                        if cached {
                            self.cache_hits = self.cache_hits + 1;
                            self.cache_misses = self.cache_misses - 1;
                        } else {
                            self.cache_hits = self.cache_hits - 1;
                            self.cache_misses = self.cache_misses + 1;
                        }
                    }
                },
            }
        }
        assert(self@ =~= spec_apply_vertex(m0, digest@, name@, started, completed, cached, now_ms));
    }

    /// Folds a log line into the aggregate: the trimmed text joins the
    /// identity's record when new, and the raw line always joins the build
    /// log.
    pub fn apply_log(&mut self, digest: &str, text: &str)
        requires
            old(self).inv(),
        ensures
            final(self).inv(),
            final(self)@ == spec_apply_log(old(self)@, digest@, text@),
    {
        let ghost m0 = self@;
        let cs = chars_of(text);
        let (tlo, thi) = trim_bounds(&cs);
        let trimmed_part = text.substring_char(tlo, thi);
        match self.build_events.index_of(digest) {
            Some(i) => {
                if thi > tlo {
                    let e0 = self.build_events.value_at(i);
                    if !has_log(&e0.logs, trimmed_part) {
                        let ghost e0_model = e0@;
                        let mut e1 = e0.duplicate();
                        let ghost pre = e1.logs@;
                        e1.logs.push(trimmed_part.to_owned());
                        proof {
                            lemma_seq_views_push(pre, e1.logs@[e1.logs@.len() - 1]);
                            assert(seq_views(pre) == e0_model.logs);
                            assert(e1@ =~= crate::events::EventModel {
                                logs: e0_model.logs.push(trimmed_part@),
                                ..e0_model
                            });
                        }
                        self.build_events.replace_at(i, e1);
                    }
                }
            },
            None => {},
        }
        self.build_log.push(LogRecord { kind: LogKind::Output, text: text.to_owned() });
        proof {
            lemma_log_views_push(
                old(self).build_log@,
                self.build_log@[self.build_log@.len() - 1],
            );
            assert(self@ =~= spec_apply_log(m0, digest@, text@));
        }
    }

    /// Counts a blob download and adds its size, when known.
    pub fn apply_download(&mut self, size: Option<u64>)
        requires
            old(self).inv(),
        ensures
            final(self).inv(),
            final(self)@ == spec_apply(
                old(self)@,
                crate::events::ItemModel::Download { digest: Seq::empty(), size },
                0,
            ),
    {
        let ghost m0 = self@;
        if self.layers_downloaded < u64::MAX {
            self.layers_downloaded = self.layers_downloaded + 1;
        }
        let s = match size {
            Some(s) => s,
            None => 0,
        };
        if self.total_image_size > u64::MAX - s {
            self.total_image_size = u64::MAX;
        } else {
            self.total_image_size = self.total_image_size + s;
        }
        assert(self@ =~= spec_apply(
            m0,
            crate::events::ItemModel::Download { digest: Seq::empty(), size },
            0,
        ));
    }

    /// Appends one tagged line to the build log.
    pub fn push_log(&mut self, kind: LogKind, text: &str)
        requires
            old(self).inv(),
        ensures
            final(self).inv(),
            final(self)@ == spec_push_log(old(self)@, kind, text@),
    {
        let ghost m0 = self@;
        self.build_log.push(LogRecord { kind, text: text.to_owned() });
        proof {
            lemma_log_views_push(
                old(self).build_log@,
                self.build_log@[self.build_log@.len() - 1],
            );
            assert(self@ =~= spec_push_log(m0, kind, text@));
        }
    }

    /// Folds the post-build image inspection into the aggregate: layers the
    /// backend never reported individually are attributed to the base image
    /// and counted as cache hits, keeping the final ratio honest.
    pub fn reconcile_inspection(&mut self, image_size: u64, total_layers: u32)
        requires
            old(self).inv(),
            old(self)@.base_image_layers == 0,
        ensures
            final(self).inv(),
            final(self)@ == spec_reconcile(old(self)@, image_size, total_layers),
    {
        let ghost m0 = self@;
        proof {
            self.vertex_states.lemma_view();
        }
        // Binds the identity count to a machine word, which bounds the
        // counter sum below.
        let tracked_count = self.vertex_states.len();
        proof {
            assert(m0.cache_hits + m0.cache_misses == tracked_count);
        }
        self.total_image_size = image_size;
        let seen = self.cache_hits + self.cache_misses;
        if (total_layers as u64) > seen {
            let diff = total_layers as u64 - seen;
            self.base_image_layers = diff;
            self.cache_hits = self.cache_hits + diff;
            self.layers_processed = self.layers_processed + diff;
        }
        assert(self@ =~= spec_reconcile(m0, image_size, total_layers));
    }

    /// Total steps announced by the most recent numbered label.
    pub fn total_steps(&self) -> (r: u32)
        ensures
            r == self@.total_steps,
    {
        self.total_steps
    }

    /// Ordinal of the most recent numbered label.
    pub fn current_step(&self) -> (r: u32)
        ensures
            r == self@.current_step,
    {
        self.current_step
    }

    /// Identities whose latest completion was a cache hit, plus base layers.
    pub fn cache_hits(&self) -> (r: u64)
        ensures
            r == self@.cache_hits,
    {
        self.cache_hits
    }

    /// Identities whose latest completion was a fresh build.
    pub fn cache_misses(&self) -> (r: u64)
        ensures
            r == self@.cache_misses,
    {
        self.cache_misses
    }

    /// Distinct completed identities, plus reconciled base layers.
    pub fn layers_processed(&self) -> (r: u64)
        ensures
            r == self@.layers_processed,
    {
        self.layers_processed
    }

    /// Bytes attributed to the image so far.
    pub fn total_image_size(&self) -> (r: u64)
        ensures
            r == self@.total_image_size,
    {
        self.total_image_size
    }

    /// Number of blob download notices seen.
    pub fn layers_downloaded(&self) -> (r: u64)
        ensures
            r == self@.layers_downloaded,
    {
        self.layers_downloaded
    }

    /// Base-image layers found only at inspection time.
    pub fn base_image_layers(&self) -> (r: u64)
        ensures
            r == self@.base_image_layers,
    {
        self.base_image_layers
    }

    /// Millisecond timestamp of the first numbered step, once seen.
    pub fn build_start_time_ms(&self) -> (r: Option<u64>)
        ensures
            r == self@.build_start_time,
    {
        self.build_start_time_ms
    }

    /// Key of the step record at position `i`.
    pub closed spec fn event_key_at(&self, i: int) -> Seq<char> {
        self.build_events.key_at(i)
    }

    /// Model of the step record at position `i`.
    pub closed spec fn event_at_spec(&self, i: int) -> crate::events::EventModel {
        self.build_events.val_at(i)
    }

    /// The step records reflect the aggregate's event map exactly.
    pub proof fn lemma_events_view(&self)
        requires
            self.inv(),
        ensures
            self@.build_events.dom().finite(),
            self@.build_events.dom().len() == self.event_count_spec(),
            forall|i: int|
                0 <= i < self.event_count_spec() ==> #[trigger] self@.build_events.contains_key(
                    self.event_key_at(i),
                ) && self@.build_events[self.event_key_at(i)] == self.event_at_spec(i),
            forall|k: Seq<char>| #[trigger]
                self@.build_events.contains_key(k) <==> exists|i: int|
                    0 <= i < self.event_count_spec() && self.event_key_at(i) == k,
            forall|i: int, j: int|
                0 <= i < j < self.event_count_spec() ==> self.event_key_at(i) != self.event_key_at(
                    j,
                ),
    {
        self.build_events.lemma_view();
        assert forall|i: int| 0 <= i < self.event_count_spec() implies #[trigger] self@.build_events.contains_key(
            self.event_key_at(i),
        ) && self@.build_events[self.event_key_at(i)] == self.event_at_spec(i) by {
            assert(self@.build_events.contains_key(self.build_events.key_at(i)));
        }
        assert forall|k: Seq<char>| #[trigger] self@.build_events.contains_key(k) implies exists|
            i: int,
        | 0 <= i < self.event_count_spec() && self.event_key_at(i) == k by {
            let i = choose|i: int|
                0 <= i < self.build_events.spec_len() && self.build_events.key_at(i) == k;
            assert(self.event_key_at(i) == k);
        }
        assert forall|k: Seq<char>|
            (exists|i: int| 0 <= i < self.event_count_spec() && self.event_key_at(i) == k) implies
            #[trigger] self@.build_events.contains_key(k) by {
            let i = choose|i: int| 0 <= i < self.event_count_spec() && self.event_key_at(i) == k;
            assert(self.build_events.key_at(i) == k);
            assert(exists|j: int|
                0 <= j < self.build_events.spec_len() && self.build_events.key_at(j) == k);
        }
    }

    /// Number of step records.
    pub closed spec fn event_count_spec(&self) -> nat {
        self.build_events.spec_len()
    }

    /// The step records, in insertion order.
    pub open spec fn events_seq(&self) -> Seq<crate::events::EventModel> {
        Seq::new(self.event_count_spec(), |i: int| self.event_at_spec(i))
    }

    /// Number of step records.
    pub fn event_count(&self) -> (r: usize)
        ensures
            r == self.event_count_spec(),
    {
        self.build_events.len()
    }

    /// A copy of the step record at position `i`.
    pub fn event_at(&self, i: usize) -> (r: BuildEvent)
        requires
            i < self.event_count_spec(),
        ensures
            r@ == self.event_at_spec(i as int),
    {
        self.build_events.value_at(i).duplicate()
    }

    /// Number of raw build-log lines.
    pub fn log_count(&self) -> (r: usize)
        ensures
            r == self@.build_log.len(),
    {
        self.build_log.len()
    }

    /// The raw build-log line at position `i`.
    pub fn log_at(&self, i: usize) -> (r: &LogRecord)
        requires
            i < self@.build_log.len(),
        ensures
            r@ == self@.build_log[i as int],
    {
        assert(log_views(self.build_log@)[i as int] == self.build_log@[i as int]@);
        &self.build_log[i]
    }
}

} // verus!
