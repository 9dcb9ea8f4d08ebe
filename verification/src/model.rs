//! Mathematical model of the statistics aggregator: the aggregate state, the
//! transition every stream item induces, the well-formedness invariant tying
//! the counters to the per-identity cache states, and the laws the engine
//! obeys (each identity is counted once; reconciliation of an unchanged
//! state is a no-op; counters track the number of distinct completed
//! identities).

use vstd::prelude::*;

use crate::events::{fresh_event, upd_event, EventModel, ItemModel, LogKind, LogModel};
use crate::parse::spec_step_label;
use crate::text::trimmed;

verus! {

/// Model of the aggregate build statistics.
#[verifier::ext_equal]
pub struct StatsModel {
    /// Total steps announced by the most recent numbered label.
    pub total_steps: u32,
    /// Ordinal of the most recent numbered label.
    pub current_step: u32,
    /// Identities whose latest completion report was a cache hit, plus the
    /// base layers folded in by the post-build reconciliation.
    pub cache_hits: nat,
    /// Identities whose latest completion report was a fresh build.
    pub cache_misses: nat,
    /// Distinct completed identities, plus reconciled base layers.
    pub layers_processed: nat,
    /// Bytes attributed to the image, from blob sizes or inspection.
    pub total_image_size: nat,
    /// Number of blob download notices seen.
    pub layers_downloaded: nat,
    /// Base-image layers never individually reported, found at inspection.
    pub base_image_layers: nat,
    /// Millisecond timestamp of the first numbered step, once seen.
    pub build_start_time: Option<u64>,
    /// Latest reported cached state of each completed identity.
    pub vertex_states: Map<Seq<char>, bool>,
    /// The deduplicated step record of each identity ever reported.
    pub build_events: Map<Seq<char>, EventModel>,
    /// Every raw log line seen, in arrival order.
    pub build_log: Seq<LogModel>,
}

/// Number of identities whose recorded state is "cached".
pub open spec fn hits_of(m: Map<Seq<char>, bool>) -> nat {
    m.dom().filter(|d: Seq<char>| m[d]).len()
}

/// The aggregate a build starts from.
pub open spec fn empty_model() -> StatsModel {
    StatsModel {
        total_steps: 0,
        current_step: 0,
        cache_hits: 0,
        cache_misses: 0,
        layers_processed: 0,
        total_image_size: 0,
        layers_downloaded: 0,
        base_image_layers: 0,
        build_start_time: None,
        vertex_states: Map::empty(),
        build_events: Map::empty(),
        build_log: Seq::empty(),
    }
}

/// The invariant every reachable aggregate satisfies: the hit counter is
/// the number of cached identities plus the reconciled base layers, the
/// miss counter is the number of remaining completed identities, and the
/// processed-layer counter is their total.
pub open spec fn wf(m: StatsModel) -> bool {
    &&& m.vertex_states.dom().finite()
    &&& m.build_events.dom().finite()
    &&& hits_of(m.vertex_states) <= m.vertex_states.dom().len()
    &&& m.cache_hits == hits_of(m.vertex_states) + m.base_image_layers
    &&& m.cache_misses == m.vertex_states.dom().len() - hits_of(m.vertex_states)
    &&& m.layers_processed == m.vertex_states.dom().len() + m.base_image_layers
    &&& m.base_image_layers <= u32::MAX
}

/// Addition that stops at the largest machine-representable size.
pub open spec fn sat_add_u64(a: nat, b: nat) -> nat {
    if a + b > u64::MAX {
        u64::MAX as nat
    } else {
        a + b
    }
}

/// Transition for a step/vertex lifecycle update: fold the report into the
/// identity's record, follow a numbered label's ordinals, and on completion
/// count the identity once, reconciling the counters if its cached state
/// changed between reports.
pub open spec fn spec_apply_vertex(
    m: StatsModel,
    digest: Seq<char>,
    name: Seq<char>,
    started: bool,
    completed: bool,
    cached: bool,
    now_ms: u64,
) -> StatsModel {
    let e0 = if m.build_events.contains_key(digest) {
        m.build_events[digest]
    } else {
        fresh_event(name)
    };
    let m1 = StatsModel {
        build_events: m.build_events.insert(digest, upd_event(e0, name, started, completed, cached)),
        ..m
    };
    let m2 = match spec_step_label(name) {
        Some(l) => StatsModel {
            current_step: l.0,
            total_steps: l.1,
            build_start_time: if m1.build_start_time is None {
                Some(now_ms)
            } else {
                m1.build_start_time
            },
            ..m1
        },
        None => m1,
    };
    if completed {
        if !m.vertex_states.contains_key(digest) {
            StatsModel {
                vertex_states: m2.vertex_states.insert(digest, cached),
                cache_hits: if cached {
                    m2.cache_hits + 1
                } else {
                    m2.cache_hits
                },
                cache_misses: if cached {
                    m2.cache_misses
                } else {
                    m2.cache_misses + 1
                },
                layers_processed: m2.layers_processed + 1,
                ..m2
            }
        } else if m.vertex_states[digest] != cached {
            StatsModel {
                vertex_states: m2.vertex_states.insert(digest, cached),
                cache_hits: if cached {
                    m2.cache_hits + 1
                } else {
                    (m2.cache_hits - 1) as nat
                },
                cache_misses: if cached {
                    (m2.cache_misses - 1) as nat
                } else {
                    m2.cache_misses + 1
                },
                ..m2
            }
        } else {
            m2
        }
    } else {
        m2
    }
}

/// Transition for a log line attached to an identity: the trimmed text is
/// added to the identity's record when it is new, and the raw line always
/// lands in the build log.
pub open spec fn spec_apply_log(m: StatsModel, digest: Seq<char>, text: Seq<char>) -> StatsModel {
    let t = trimmed(text);
    let events = if m.build_events.contains_key(digest) && t.len() > 0
        && !m.build_events[digest].logs.contains(t) {
        m.build_events.insert(
            digest,
            EventModel { logs: m.build_events[digest].logs.push(t), ..m.build_events[digest] },
        )
    } else {
        m.build_events
    };
    StatsModel {
        build_events: events,
        build_log: m.build_log.push(LogModel { kind: LogKind::Output, text: text }),
        ..m
    }
}

/// One tagged line appended to the build log.
pub open spec fn spec_push_log(m: StatsModel, kind: LogKind, text: Seq<char>) -> StatsModel {
    StatsModel { build_log: m.build_log.push(LogModel { kind: kind, text: text }), ..m }
}

/// The transition one stream item induces on the aggregate.
pub open spec fn spec_apply(m: StatsModel, item: ItemModel, now_ms: u64) -> StatsModel {
    match item {
        ItemModel::Vertex { digest, name, started, completed, cached } => spec_apply_vertex(
            m,
            digest,
            name,
            started,
            completed,
            cached,
            now_ms,
        ),
        ItemModel::LogLine { digest, text } => spec_apply_log(m, digest, text),
        ItemModel::Download { digest, size } => StatsModel {
            layers_downloaded: sat_add_u64(m.layers_downloaded, 1),
            total_image_size: sat_add_u64(
                m.total_image_size,
                match size {
                    Some(s) => s as nat,
                    None => 0,
                },
            ),
            ..m
        },
        ItemModel::StatusLine { text } => spec_push_log(m, LogKind::Output, text),
        ItemModel::ImageId { text } => spec_push_log(m, LogKind::ImageId, text),
        ItemModel::OutputLine { text } => spec_push_log(m, LogKind::Output, text),
        ItemModel::ErrorLine { text } => spec_push_log(m, LogKind::Error, text),
    }
}

/// Transition for the post-build inspection: the inspected size replaces
/// the running size, and layers beyond those individually counted are
/// attributed to the base image and folded into the hit counter.
pub open spec fn spec_reconcile(m: StatsModel, image_size: u64, total_layers: u32) -> StatsModel {
    let seen = m.cache_hits + m.cache_misses;
    if total_layers > seen {
        StatsModel {
            total_image_size: image_size as nat,
            base_image_layers: (total_layers - seen) as nat,
            cache_hits: (m.cache_hits + total_layers - seen) as nat,
            layers_processed: (m.layers_processed + total_layers - seen) as nat,
            ..m
        }
    } else {
        StatsModel { total_image_size: image_size as nat, ..m }
    }
}

/// How an insertion changes the cached-identity count.
pub proof fn lemma_hits_insert(m: Map<Seq<char>, bool>, d: Seq<char>, v: bool)
    requires
        m.dom().finite(),
    ensures
        m.insert(d, v).dom().finite(),
        hits_of(m) <= m.dom().len(),
        !m.contains_key(d) && v ==> hits_of(m.insert(d, v)) == hits_of(m) + 1,
        !m.contains_key(d) && !v ==> hits_of(m.insert(d, v)) == hits_of(m),
        m.contains_key(d) && m[d] == v ==> hits_of(m.insert(d, v)) == hits_of(m),
        m.contains_key(d) && m[d] != v && v ==> hits_of(m.insert(d, v)) == hits_of(m) + 1,
        m.contains_key(d) && m[d] != v && !v ==> hits_of(m.insert(d, v)) == hits_of(m) - 1
            && hits_of(m) >= 1,
        !m.contains_key(d) ==> m.insert(d, v).dom().len() == m.dom().len() + 1,
        m.contains_key(d) ==> m.insert(d, v).dom().len() == m.dom().len(),
        hits_of(m.insert(d, v)) <= m.insert(d, v).dom().len(),
{
    let m2 = m.insert(d, v);
    let s = m.dom().filter(|x: Seq<char>| m[x]);
    let s2 = m2.dom().filter(|x: Seq<char>| m2[x]);
    m.dom().lemma_len_filter(|x: Seq<char>| m[x]);
    assert(m2.dom() =~= m.dom().insert(d));
    m2.dom().lemma_len_filter(|x: Seq<char>| m2[x]);
    assert(!s.contains(d) ==> s.insert(d).len() == s.len() + 1);
    if v {
        assert(s2 =~= s.insert(d));
        if m.contains_key(d) && m[d] {
            assert(s.contains(d));
            assert(s.insert(d) =~= s);
        } else {
            assert(!s.contains(d));
        }
    } else {
        assert(s2 =~= s.remove(d));
        if m.contains_key(d) && m[d] {
            assert(s.contains(d));
            assert(s.len() == s.remove(d).len() + 1);
        } else {
            assert(!s.contains(d));
            assert(s.remove(d) =~= s);
        }
    }
}

/// Applying one stream item preserves the invariant; the base-layer count
/// and the set of completed identities move exactly as described.
pub proof fn lemma_apply_preserves_wf(m: StatsModel, item: ItemModel, now_ms: u64)
    requires
        wf(m),
    ensures
        wf(spec_apply(m, item, now_ms)),
        spec_apply(m, item, now_ms).base_image_layers == m.base_image_layers,
        spec_apply(m, item, now_ms).vertex_states.dom() == (match item {
            ItemModel::Vertex { digest, completed: true, .. } => m.vertex_states.dom().insert(
                digest,
            ),
            _ => m.vertex_states.dom(),
        }),
{
    match item {
        ItemModel::Vertex { digest, name, started, completed, cached } => {
            lemma_hits_insert(m.vertex_states, digest, cached);
            let f = spec_apply(m, item, now_ms);
            if completed {
                assert(f.vertex_states == m.vertex_states.insert(digest, cached));
                assert(f.vertex_states.dom() =~= m.vertex_states.dom().insert(digest));
            } else {
                assert(f.vertex_states == m.vertex_states);
                assert(f.vertex_states.dom() =~= m.vertex_states.dom());
            }
        },
        _ => {
            let f = spec_apply(m, item, now_ms);
            assert(f.vertex_states == m.vertex_states);
        },
    }
}

/// Reconciling an unchanged `(identity, cached)` pair leaves every counter
/// where it was: reprocessing an already-seen completion is a no-op on the
/// statistics.
pub proof fn lemma_reapply_same_state_is_noop(
    m: StatsModel,
    digest: Seq<char>,
    name: Seq<char>,
    started: bool,
    cached: bool,
    now_ms: u64,
)
    requires
        wf(m),
        m.vertex_states.contains_key(digest),
        m.vertex_states[digest] == cached,
    ensures
        ({
            let f = spec_apply_vertex(m, digest, name, started, true, cached, now_ms);
            f.cache_hits == m.cache_hits && f.cache_misses == m.cache_misses
                && f.layers_processed == m.layers_processed && f.base_image_layers
                == m.base_image_layers && f.vertex_states == m.vertex_states
        }),
{
}

/// The aggregate after a whole sequence of stream items.
pub open spec fn run_model(m: StatsModel, items: Seq<ItemModel>, now_ms: u64) -> StatsModel
    decreases items.len(),
{
    if items.len() == 0 {
        m
    } else {
        run_model(spec_apply(m, items[0], now_ms), items.drop_first(), now_ms)
    }
}

/// The item is a completion report for identity `d`.
pub open spec fn is_completion_of(item: ItemModel, d: Seq<char>) -> bool {
    item matches ItemModel::Vertex { digest, completed, .. } && digest == d && completed
}

/// The identities for which `items` holds at least one completion report.
pub open spec fn completed_digests(items: Seq<ItemModel>) -> Set<Seq<char>>
    decreases items.len(),
{
    if items.len() == 0 {
        Set::empty()
    } else {
        let rest = completed_digests(items.drop_first());
        match items[0] {
            ItemModel::Vertex { digest, completed: true, .. } => rest.insert(digest),
            _ => rest,
        }
    }
}

proof fn lemma_run_model_counts(m: StatsModel, items: Seq<ItemModel>, now_ms: u64)
    requires
        wf(m),
    ensures
        ({
            let f = run_model(m, items, now_ms);
            wf(f) && f.base_image_layers == m.base_image_layers && f.vertex_states.dom()
                =~= m.vertex_states.dom().union(completed_digests(items))
        }),
    decreases items.len(),
{
    if items.len() > 0 {
        lemma_apply_preserves_wf(m, items[0], now_ms);
        lemma_run_model_counts(spec_apply(m, items[0], now_ms), items.drop_first(), now_ms);
    } else {
        assert(m.vertex_states.dom().union(Set::empty()) =~= m.vertex_states.dom());
    }
}

/// Each identity is counted exactly once: after any nonempty sequence of
/// completion reports for one identity, starting from the empty aggregate,
/// the hit and miss counters sum to one.
pub proof fn lemma_single_identity_counted_once(items: Seq<ItemModel>, d: Seq<char>, now_ms: u64)
    requires
        items.len() > 0,
        forall|i: int| 0 <= i < items.len() ==> is_completion_of(#[trigger] items[i], d),
    ensures
        ({
            let f = run_model(empty_model(), items, now_ms);
            f.cache_hits + f.cache_misses == 1
        }),
{
    let m0 = empty_model();
    assert(wf(m0)) by {
        assert(m0.vertex_states.dom() =~= Set::<Seq<char>>::empty());
        assert(m0.vertex_states.dom().filter(|x: Seq<char>| m0.vertex_states[x]) =~= Set::<
            Seq<char>,
        >::empty());
    }
    lemma_run_model_counts(m0, items, now_ms);
    let f = run_model(m0, items, now_ms);
    assert(completed_digests(items) =~= set![d]) by {
        lemma_completed_digests_single(items, d);
    }
    assert(f.vertex_states.dom() =~= set![d]);
    assert(f.vertex_states.dom().len() == 1) by {
        assert(set![d] =~= Set::empty().insert(d));
    }
}

proof fn lemma_completed_digests_single(items: Seq<ItemModel>, d: Seq<char>)
    requires
        forall|i: int| 0 <= i < items.len() ==> is_completion_of(#[trigger] items[i], d),
    ensures
        items.len() == 0 ==> completed_digests(items) =~= Set::<Seq<char>>::empty(),
        items.len() > 0 ==> completed_digests(items) =~= set![d],
    decreases items.len(),
{
    if items.len() > 0 {
        assert(is_completion_of(items[0], d));
        let rest = items.drop_first();
        assert(forall|i: int| 0 <= i < rest.len() ==> is_completion_of(#[trigger] rest[i], d))
            by {
            assert(forall|i: int| 0 <= i < rest.len() ==> rest[i] == items[i + 1]);
        }
        lemma_completed_digests_single(rest, d);
        if rest.len() == 0 {
            assert(completed_digests(items) =~= set![d]);
        } else {
            assert(completed_digests(items) =~= set![d].insert(d));
            assert(set![d].insert(d) =~= set![d]);
        }
    }
}

/// With `N` distinct identities completing (in any interleaving, with any
/// repetitions) and no base-layer reconciliation, the hit and miss counters
/// and the processed-layer counter all equal `N`.
pub proof fn lemma_distinct_identities_counted(items: Seq<ItemModel>, now_ms: u64)
    ensures
        ({
            let f = run_model(empty_model(), items, now_ms);
            f.cache_hits + f.cache_misses == completed_digests(items).len()
                && f.layers_processed == completed_digests(items).len() && f.base_image_layers == 0
        }),
{
    let m0 = empty_model();
    assert(wf(m0)) by {
        assert(m0.vertex_states.dom() =~= Set::<Seq<char>>::empty());
        assert(m0.vertex_states.dom().filter(|x: Seq<char>| m0.vertex_states[x]) =~= Set::<
            Seq<char>,
        >::empty());
    }
    lemma_run_model_counts(m0, items, now_ms);
    let f = run_model(m0, items, now_ms);
    assert(f.vertex_states.dom() =~= completed_digests(items)) by {
        assert(m0.vertex_states.dom().union(completed_digests(items)) =~= completed_digests(
            items,
        ));
    }
}

} // verus!
