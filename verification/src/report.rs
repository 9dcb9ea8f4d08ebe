//! The diagnostic reporter: when the build stream fails, it reconstructs an
//! ordered, deduplicated transcript from the aggregate (internal phases
//! first in name order, then numbered steps by ordinal with name ties),
//! followed by the unattributed raw log lines in arrival order and a short
//! failure-context block.

use vstd::multiset::Multiset;
use vstd::prelude::*;
use vstd::string::{StrSliceExecFns, StringExecFns};

use crate::events::{seq_views, BuildEvent, EventModel, LogKind, LogModel};
use crate::model::StatsModel;
use crate::numfmt::{dec_digits, push_dec, push_pad3, push_seconds, spec_pad3, spec_seconds};
use crate::stats::BuildStats;
use crate::summary::elapsed_ms;
use crate::text::{
    chars_of, contains_seq, contains_sub, lex_le, lex_le_exec, lemma_lex_le_total,
    lemma_lex_le_trans, starts_with, starts_with_seq, trim_bounds, trimmed,
};

verus! {

/// An internal (non-Dockerfile) phase, recognized by its label.
pub open spec fn is_internal(e: EventModel) -> bool {
    contains_seq(e.name, "[internal]"@)
}

/// A step record the transcript keeps: it started, or gathered logs, or is
/// an internal phase.
pub open spec fn keeps(e: EventModel) -> bool {
    e.started || e.logs.len() > 0 || is_internal(e)
}

/// [`keeps`] as a filter predicate.
pub open spec fn keeps_pred() -> spec_fn(EventModel) -> bool {
    |e: EventModel| keeps(e)
}

/// The transcript order: internal phases before numbered steps; internal
/// phases by name; numbered steps by step number, records without a number
/// after those with one, ties by name.
pub open spec fn event_le(a: EventModel, b: EventModel) -> bool {
    if is_internal(a) && !is_internal(b) {
        true
    } else if !is_internal(a) && is_internal(b) {
        false
    } else if is_internal(a) && is_internal(b) {
        lex_le(a.name, b.name)
    } else {
        match (a.step_number, b.step_number) {
            (Some(x), Some(y)) => {
                if x < y {
                    true
                } else if x > y {
                    false
                } else {
                    lex_le(a.name, b.name)
                }
            },
            (Some(_), None) => true,
            (None, Some(_)) => false,
            (None, None) => lex_le(a.name, b.name),
        }
    }
}

/// The transcript order is total.
pub proof fn lemma_event_le_total(a: EventModel, b: EventModel)
    ensures
        event_le(a, b) || event_le(b, a),
{
    lemma_lex_le_total(a.name, b.name);
}

/// The transcript order is transitive.
pub proof fn lemma_event_le_trans(a: EventModel, b: EventModel, c: EventModel)
    requires
        event_le(a, b),
        event_le(b, c),
    ensures
        event_le(a, c),
{
    if lex_le(a.name, b.name) && lex_le(b.name, c.name) {
        lemma_lex_le_trans(a.name, b.name, c.name);
    }
}

/// The models of a sequence of step records.
pub open spec fn event_views(s: Seq<BuildEvent>) -> Seq<EventModel> {
    s.map_values(|e: BuildEvent| e@)
}

/// Sorted by the transcript order.
pub open spec fn events_sorted(s: Seq<EventModel>) -> bool {
    forall|i: int, j: int| 0 <= i < j < s.len() ==> event_le(s[i], s[j])
}

proof fn lemma_filter_push<A>(s: Seq<A>, pred: spec_fn(A) -> bool, x: A)
    ensures
        s.push(x).filter(pred) == if pred(x) {
            s.filter(pred).push(x)
        } else {
            s.filter(pred)
        },
{
    reveal(Seq::filter);
    assert(s.push(x).drop_last() =~= s);
    assert(s.push(x).last() == x);
}

proof fn lemma_to_multiset_empty<A>(s: Seq<A>)
    requires
        s.len() == 0,
    ensures
        s.to_multiset() == Multiset::<A>::empty(),
{
    s.to_multiset_ensures();
    assert(s.to_multiset() =~= Multiset::<A>::empty()) by {
        assert forall|y: A| s.to_multiset().count(y) == 0 by {
            if s.to_multiset().count(y) > 0 {
                assert(s.contains(y));
            }
        }
    }
}

proof fn lemma_seq_insert_to_multiset<A>(s: Seq<A>, j: int, x: A)
    requires
        0 <= j <= s.len(),
    ensures
        s.insert(j, x).to_multiset() == s.to_multiset().insert(x),
{
    let t = s.insert(j, x);
    t.to_multiset_ensures();
    assert(t.remove(j) =~= s);
    assert(t[j] == x);
    assert(t.remove(j).to_multiset() =~= t.to_multiset().remove(x));
    assert(t.contains(x));
    assert(t.to_multiset().count(x) > 0);
    assert(t.to_multiset() =~= s.to_multiset().insert(x)) by {
        assert forall|y: A| t.to_multiset().count(y) == s.to_multiset().insert(x).count(y) by {
            assert(s.to_multiset().count(y) == t.to_multiset().remove(x).count(y));
        }
    }
}

/// Whether the transcript keeps this record.
fn keeps_exec(e: &BuildEvent) -> (r: bool)
    ensures
        r == keeps(e@),
{
    if e.started {
        return true;
    }
    if e.logs.len() > 0 {
        return true;
    }
    let cs = chars_of(e.name.as_str());
    let pat = chars_of("[internal]");
    contains_sub(&cs, &pat)
}

/// Decides the transcript order on two step records.
fn event_le_exec(a: &BuildEvent, b: &BuildEvent) -> (r: bool)
    ensures
        r == event_le(a@, b@),
{
    let pat = chars_of("[internal]");
    let ca = chars_of(a.name.as_str());
    let cb = chars_of(b.name.as_str());
    let a_int = contains_sub(&ca, &pat);
    let b_int = contains_sub(&cb, &pat);
    if a_int && !b_int {
        true
    } else if !a_int && b_int {
        false
    } else if a_int && b_int {
        lex_le_exec(&ca, &cb)
    } else {
        match (a.step_number, b.step_number) {
            (Some(x), Some(y)) => {
                if x < y {
                    true
                } else if x > y {
                    false
                } else {
                    lex_le_exec(&ca, &cb)
                }
            },
            (Some(_), None) => true,
            (None, Some(_)) => false,
            (None, None) => lex_le_exec(&ca, &cb),
        }
    }
}

fn insert_sorted(out: &mut Vec<BuildEvent>, x: BuildEvent)
    requires
        events_sorted(event_views(old(out)@)),
    ensures
        events_sorted(event_views(final(out)@)),
        event_views(final(out)@).to_multiset() == event_views(old(out)@).to_multiset().insert(x@),
{
    let n = out.len();
    let ghost vs = event_views(out@);
    let mut j: usize = 0;
    while j < n && event_le_exec(&out[j], &x)
        invariant
            j <= n,
            n == out@.len(),
            out@ == old(out)@,
            vs == event_views(out@),
            forall|k: int| 0 <= k < j ==> event_le(vs[k], x@),
        decreases n - j,
    {
        assert(vs[j as int] == out@[j as int]@);
        j += 1;
    }
    proof {
        assert(forall|k: int| 0 <= k < vs.len() ==> vs[k] == out@[k]@);
        if j < n {
            assert(!event_le(vs[j as int], x@));
            lemma_event_le_total(vs[j as int], x@);
        }
        assert forall|k: int| j <= k < n implies event_le(x@, vs[k]) by {
            lemma_event_le_total(vs[j as int], x@);
            if k > j {
                lemma_event_le_trans(x@, vs[j as int], vs[k]);
            }
        }
    }
    out.insert(j, x);
    proof {
        let nvs = event_views(out@);
        assert(nvs =~= vs.insert(j as int, x@)) by {
            assert(forall|k: int| 0 <= k < out@.len() ==> nvs[k] == out@[k]@);
        }
        lemma_seq_insert_to_multiset(vs, j as int, x@);
        assert(events_sorted(nvs)) by {
            assert forall|p: int, q: int| 0 <= p < q < nvs.len() implies event_le(nvs[p], nvs[q]) by {
                if p < j && q == j {
                    assert(nvs[p] == vs[p]);
                } else if p == j && q > j {
                    assert(nvs[q] == vs[q - 1]);
                } else if q < j {
                    assert(nvs[p] == vs[p] && nvs[q] == vs[q]);
                } else if p > j {
                    assert(nvs[p] == vs[p - 1] && nvs[q] == vs[q - 1]);
                } else if p < j && q > j {
                    assert(nvs[p] == vs[p] && nvs[q] == vs[q - 1]);
                }
            }
        }
    }
}

/// The status marker of a step record, by its lifecycle flags.
pub open spec fn marker_of(e: EventModel) -> Seq<char> {
    if e.cached {
        "[cached]"@
    } else if e.completed {
        "[done]"@
    } else if e.started {
        "[run]"@
    } else {
        "[wait]"@
    }
}

/// The transcript line a step record heads.
pub open spec fn spec_event_header(e: EventModel, ln: nat) -> Seq<char> {
    marker_of(e) + " "@ + spec_pad3(ln) + ": "@ + e.name
}

/// The indented transcript lines of a step's logs, numbered from `ln`.
pub open spec fn spec_log_lines(logs: Seq<Seq<char>>, ln: nat) -> Seq<Seq<char>>
    decreases logs.len(),
{
    if logs.len() == 0 {
        Seq::empty()
    } else {
        seq!["[log] "@ + spec_pad3(ln) + ": "@ + logs[0]] + spec_log_lines(
            logs.drop_first(),
            ln + 1,
        )
    }
}

proof fn lemma_log_lines_len(logs: Seq<Seq<char>>, ln: nat)
    ensures
        spec_log_lines(logs, ln).len() == logs.len(),
    decreases logs.len(),
{
    if logs.len() > 0 {
        lemma_log_lines_len(logs.drop_first(), ln + 1);
    }
}

/// The transcript lines of one step record: a header when the name is not
/// blank, then its log lines.
pub open spec fn spec_event_lines(e: EventModel, ln: nat) -> Seq<Seq<char>> {
    if trimmed(e.name).len() > 0 {
        seq![spec_event_header(e, ln)] + spec_log_lines(e.logs, ln + 1)
    } else {
        spec_log_lines(e.logs, ln)
    }
}

/// The transcript lines of a run of step records, numbered consecutively
/// from `ln`.
pub open spec fn spec_events_lines(evs: Seq<EventModel>, ln: nat) -> Seq<Seq<char>>
    decreases evs.len(),
{
    if evs.len() == 0 {
        Seq::empty()
    } else {
        spec_event_lines(evs[0], ln) + spec_events_lines(
            evs.drop_first(),
            ln + spec_event_lines(evs[0], ln).len(),
        )
    }
}

/// A raw log line already shown under some tracked step.
pub open spec fn attributable(m: StatsModel, t: Seq<char>) -> bool {
    exists|k: Seq<char>| #[trigger] m.build_events.contains_key(k) && m.build_events[k].logs.contains(t)
}

/// The transcript line one raw log record yields: errors and the image
/// identifier are always shown; other lines are shown trimmed, under a
/// keyword tag, unless blank or already attributed to a tracked step.
pub open spec fn spec_leftover_line(m: StatsModel, l: LogModel, ln: nat) -> Option<Seq<char>> {
    match l.kind {
        LogKind::Error => Some("[error] "@ + spec_pad3(ln) + ": "@ + trimmed(l.text)),
        LogKind::ImageId => Some("[image] "@ + spec_pad3(ln) + ": Final image "@ + trimmed(l.text)),
        LogKind::Output => {
            let t = trimmed(l.text);
            if t.len() == 0 {
                None
            } else if attributable(m, t) {
                None
            } else if starts_with_seq(t, "STEP "@) {
                Some("[step] "@ + spec_pad3(ln) + ": "@ + t)
            } else if contains_seq(t, "RUN "@) {
                Some("[run] "@ + spec_pad3(ln) + ": "@ + t)
            } else if contains_seq(t, "COPY "@) || contains_seq(t, "ADD "@) {
                Some("[copy] "@ + spec_pad3(ln) + ": "@ + t)
            } else if contains_seq(t, "FROM "@) {
                Some("[from] "@ + spec_pad3(ln) + ": "@ + t)
            } else {
                Some("[out] "@ + spec_pad3(ln) + ": "@ + t)
            }
        },
    }
}

/// The transcript lines of the raw build log, in arrival order.
pub open spec fn spec_leftover_lines(m: StatsModel, logs: Seq<LogModel>, ln: nat) -> Seq<
    Seq<char>,
>
    decreases logs.len(),
{
    if logs.len() == 0 {
        Seq::empty()
    } else {
        match spec_leftover_line(m, logs[0], ln) {
            Some(x) => seq![x] + spec_leftover_lines(m, logs.drop_first(), ln + 1),
            None => spec_leftover_lines(m, logs.drop_first(), ln),
        }
    }
}

/// The failure-context block closing the transcript.
pub open spec fn spec_context_lines(m: StatsModel, now_ms: u64) -> Seq<Seq<char>> {
    seq!["Failure context:"@] + (if m.total_steps > 0 {
        seq![
            "  step "@ + dec_digits(m.current_step as nat) + "/"@ + dec_digits(
                m.total_steps as nat,
            ) + " at failure"@,
        ]
    } else {
        Seq::<Seq<char>>::empty()
    }) + (if m.layers_processed > 0 {
        seq!["  "@ + dec_digits(m.layers_processed) + " layers processed before failure"@]
    } else {
        Seq::<Seq<char>>::empty()
    }) + (match m.build_start_time {
        Some(start) => seq![
            "  build ran for "@ + spec_seconds(elapsed_ms(now_ms, start)) + " before failing"@,
        ],
        None => Seq::<Seq<char>>::empty(),
    })
}

/// The shape of a finished transcript: some transcript-ordered permutation
/// `evs` of the kept step records, rendered as the step section, the
/// unattributed raw log lines, and the failure context.
pub open spec fn report_shape(
    m: StatsModel,
    all: Seq<EventModel>,
    evs: Seq<EventModel>,
    out: Seq<Seq<char>>,
    now_ms: u64,
) -> bool {
    &&& events_sorted(evs)
    &&& evs.to_multiset() == all.filter(keeps_pred()).to_multiset()
    &&& out == spec_events_lines(evs, 1) + spec_leftover_lines(
        m,
        m.build_log,
        1 + spec_events_lines(evs, 1).len(),
    ) + spec_context_lines(m, now_ms)
}

/// The kept step records, in transcript order: internal phases first in
/// name order, then numbered steps by ordinal, ties by name, unnumbered
/// records last. The result is a permutation of the kept records, and the
/// order depends only on the records themselves, so a given event sequence
/// always yields the same transcript.
pub fn ordered_events(stats: &BuildStats) -> (r: Vec<BuildEvent>)
    requires
        stats.inv(),
    ensures
        events_sorted(event_views(r@)),
        event_views(r@).to_multiset() == stats.events_seq().filter(keeps_pred()).to_multiset(),
{
    let ghost all = stats.events_seq();
    let ghost pred = keeps_pred();
    let n = stats.event_count();
    let mut pending: Vec<BuildEvent> = Vec::new();
    let mut i: usize = 0;
    proof {
        assert(all.subrange(0, 0) =~= Seq::<EventModel>::empty());
        assert(Seq::<EventModel>::empty().filter(pred) =~= Seq::<EventModel>::empty());
        assert(event_views(pending@) =~= Seq::<EventModel>::empty());
    }
    while i < n
        invariant
            i <= n,
            n == stats.event_count_spec(),
            stats.inv(),
            all == stats.events_seq(),
            pred == keeps_pred(),
            event_views(pending@) == all.subrange(0, i as int).filter(pred),
        decreases n - i,
    {
        let e = stats.event_at(i);
        let ghost pre = all.subrange(0, i as int);
        let ghost post = all.subrange(0, i + 1);
        proof {
            assert(post.drop_last() =~= pre);
            assert(post.last() == all[i as int]);
            assert(all[i as int] == e@);
        }
        proof {
            lemma_filter_push(pre, pred, all[i as int]);
            assert(pre.push(all[i as int]) =~= post);
        }
        if keeps_exec(&e) {
            let ghost pv = event_views(pending@);
            pending.push(e);
            proof {
                assert(event_views(pending@) =~= pv.push(all[i as int]));
                assert(post.filter(pred) == pre.filter(pred).push(all[i as int]));
            }
        } else {
            proof {
                assert(post.filter(pred) == pre.filter(pred));
            }
        }
        i += 1;
    }
    proof {
        assert(all.subrange(0, n as int) =~= all);
    }
    let ghost kept = all.filter(pred);
    let mut out: Vec<BuildEvent> = Vec::new();
    proof {
        assert(event_views(out@) =~= Seq::<EventModel>::empty());
        lemma_to_multiset_empty(event_views(out@));
        assert(event_views(out@).to_multiset().add(event_views(pending@).to_multiset())
            =~= kept.to_multiset());
    }
    loop
        invariant
            kept == stats.events_seq().filter(keeps_pred()),
            events_sorted(event_views(out@)),
            event_views(out@).to_multiset().add(event_views(pending@).to_multiset())
                == kept.to_multiset(),
        decreases pending@.len(),
    {
        let ghost pv = event_views(pending@);
        match pending.pop() {
            Some(x) => {
                proof {
                    assert(pv =~= event_views(pending@).push(x@)) by {
                        assert(forall|k: int|
                            0 <= k < pending@.len() ==> event_views(pending@)[k] == pv[k]);
                    }
                    event_views(pending@).to_multiset_ensures();
                    assert((event_views(pending@).push(x@)).to_multiset() =~= event_views(
                        pending@,
                    ).to_multiset().insert(x@));
                    assert(pv.to_multiset() == event_views(pending@).to_multiset().insert(x@));
                }
                let ghost ov = event_views(out@);
                insert_sorted(&mut out, x);
                proof {
                    assert(event_views(out@).to_multiset() == ov.to_multiset().insert(x@));
                    assert(event_views(out@).to_multiset().add(
                        event_views(pending@).to_multiset(),
                    ) =~= kept.to_multiset());
                }
            },
            None => {
                proof {
                    assert(pending@.len() == 0);
                    lemma_to_multiset_empty(event_views(pending@));
                    assert(event_views(out@).to_multiset() =~= kept.to_multiset());
                }
                return out;
            },
        }
    }
}

/// Appends the transcript lines of one step record, numbered from `ln`;
/// returns the next line number.
fn emit_event_lines(e: &BuildEvent, ln: u128, lines: &mut Vec<String>) -> (r: u128)
    requires
        ln as nat == 1 + old(lines)@.len(),
    ensures
        r as nat == 1 + final(lines)@.len(),
        seq_views(final(lines)@) == seq_views(old(lines)@) + spec_event_lines(e@, ln as nat),
{
    let ghost target = spec_event_lines(e@, ln as nat);
    let ghost logsv = e@.logs;
    let mut cur = ln;
    let name_chars = chars_of(e.name.as_str());
    let (nlo, nhi) = trim_bounds(&name_chars);
    if nhi > nlo {
        let mut s = String::new();
        if e.cached {
            s.append("[cached]");
        } else if e.completed {
            s.append("[done]");
        } else if e.started {
            s.append("[run]");
        } else {
            s.append("[wait]");
        }
        s.append(" ");
        push_pad3(cur, &mut s);
        s.append(": ");
        s.append(e.name.as_str());
        assert(s@ == spec_event_header(e@, cur as nat));
        let ghost pre = lines@;
        lines.push(s);
        proof {
            assert(seq_views(lines@) =~= seq_views(pre).push(spec_event_header(e@, cur as nat)));
            assert(lines.len() <= usize::MAX);
        }
        cur = cur + 1;
    }
    let n = e.logs.len();
    let mut j: usize = 0;
    proof {
        assert(logsv.subrange(0, logsv.len() as int) =~= logsv);
    }
    while j < n
        invariant
            j <= n,
            n == e.logs@.len(),
            logsv == e@.logs,
            cur as nat == 1 + lines@.len(),
            seq_views(lines@) + spec_log_lines(
                logsv.subrange(j as int, logsv.len() as int),
                cur as nat,
            ) == seq_views(old(lines)@) + target,
        decreases n - j,
    {
        let ghost suffix = logsv.subrange(j as int, logsv.len() as int);
        let ghost prev = seq_views(lines@);
        let mut s = String::new();
        s.append("[log] ");
        push_pad3(cur, &mut s);
        s.append(": ");
        s.append(e.logs[j].as_str());
        proof {
            assert(logsv[j as int] == e.logs@[j as int]@);
            assert(s@ == "[log] "@ + spec_pad3(cur as nat) + ": "@ + logsv[j as int]);
            assert(suffix[0] == logsv[j as int]);
            assert(suffix.drop_first() =~= logsv.subrange(j + 1, logsv.len() as int));
        }
        let ghost line_v = "[log] "@ + spec_pad3(cur as nat) + ": "@ + logsv[j as int];
        lines.push(s);
        proof {
            assert(seq_views(lines@) =~= prev.push(line_v));
            assert(prev.push(line_v) =~= prev + seq![line_v]);
            assert((prev + seq![line_v]) + spec_log_lines(
                logsv.subrange(j + 1, logsv.len() as int),
                cur as nat + 1,
            ) =~= prev + spec_log_lines(suffix, cur as nat));
            assert(lines.len() <= usize::MAX);
        }
        cur = cur + 1;
        j += 1;
    }
    proof {
        assert(logsv.subrange(n as int, logsv.len() as int) =~= Seq::<Seq<char>>::empty());
        assert(seq_views(lines@) + Seq::<Seq<char>>::empty() =~= seq_views(lines@));
        assert(seq_views(lines@) =~= seq_views(old(lines)@) + target);
    }
    cur
}

/// Whether the trimmed line `t` already appears under some tracked step.
fn is_attributable(stats: &BuildStats, t: &str) -> (r: bool)
    requires
        stats.inv(),
    ensures
        r == attributable(stats@, t@),
{
    proof {
        stats.lemma_events_view();
    }
    let n = stats.event_count();
    let mut i: usize = 0;
    while i < n
        invariant
            i <= n,
            n == stats.event_count_spec(),
            stats.inv(),
            forall|k: int| 0 <= k < i ==> !stats.event_at_spec(k).logs.contains(t@),
        decreases n - i,
    {
        let e = stats.event_at(i);
        if crate::stats::has_log(&e.logs, t) {
            proof {
                stats.lemma_events_view();
                assert(stats@.build_events.contains_key(stats.event_key_at(i as int))
                    && stats@.build_events[stats.event_key_at(i as int)].logs.contains(t@));
            }
            return true;
        }
        i += 1;
    }
    proof {
        if attributable(stats@, t@) {
            let k = choose|k: Seq<char>|
                stats@.build_events.contains_key(k) && stats@.build_events[k].logs.contains(t@);
            let j = choose|j: int|
                0 <= j < stats.event_count_spec() && stats.event_key_at(j) == k;
            assert(stats@.build_events[k] == stats.event_at_spec(j));
            assert(!stats.event_at_spec(j).logs.contains(t@));
        }
    }
    false
}

/// Appends the transcript lines of the raw build log, numbered from `ln`;
/// returns the next line number.
fn emit_leftover_lines(stats: &BuildStats, ln: u128, lines: &mut Vec<String>) -> (r: u128)
    requires
        stats.inv(),
        ln as nat == 1 + old(lines)@.len(),
    ensures
        r as nat == 1 + final(lines)@.len(),
        seq_views(final(lines)@) == seq_views(old(lines)@) + spec_leftover_lines(
            stats@,
            stats@.build_log,
            ln as nat,
        ),
{
    let ghost m = stats@;
    let ghost logm = m.build_log;
    let ghost target = spec_leftover_lines(m, logm, ln as nat);
    let n = stats.log_count();
    let mut cur = ln;
    let mut i: usize = 0;
    proof {
        assert(logm.subrange(0, logm.len() as int) =~= logm);
    }
    while i < n
        invariant
            i <= n,
            n == logm.len(),
            m == stats@,
            logm == m.build_log,
            stats.inv(),
            cur as nat == 1 + lines@.len(),
            seq_views(lines@) + spec_leftover_lines(
                m,
                logm.subrange(i as int, logm.len() as int),
                cur as nat,
            ) == seq_views(old(lines)@) + target,
        decreases n - i,
    {
        let ghost suffix = logm.subrange(i as int, logm.len() as int);
        let ghost prev = seq_views(lines@);
        proof {
            assert(suffix[0] == logm[i as int]);
            assert(suffix.drop_first() =~= logm.subrange(i + 1, logm.len() as int));
        }
        let rec = stats.log_at(i);
        let kind = rec.kind;
        let cs = chars_of(rec.text.as_str());
        let (tlo, thi) = trim_bounds(&cs);
        let tstr = rec.text.as_str().substring_char(tlo, thi);
        assert(tstr@ == trimmed(logm[i as int].text));
        let emitted: Option<String> = match kind {
            LogKind::Error => {
                let mut s = String::new();
                s.append("[error] ");
                push_pad3(cur, &mut s);
                s.append(": ");
                s.append(tstr);
                Some(s)
            },
            LogKind::ImageId => {
                let mut s = String::new();
                s.append("[image] ");
                push_pad3(cur, &mut s);
                s.append(": Final image ");
                s.append(tstr);
                Some(s)
            },
            LogKind::Output => {
                if thi == tlo {
                    None
                } else if is_attributable(stats, tstr) {
                    None
                } else {
                    let tv = chars_of(tstr);
                    let mut s = String::new();
                    if starts_with(&tv, &chars_of("STEP ")) {
                        s.append("[step] ");
                    } else if contains_sub(&tv, &chars_of("RUN ")) {
                        s.append("[run] ");
                    } else if contains_sub(&tv, &chars_of("COPY ")) || contains_sub(
                        &tv,
                        &chars_of("ADD "),
                    ) {
                        s.append("[copy] ");
                    } else if contains_sub(&tv, &chars_of("FROM ")) {
                        s.append("[from] ");
                    } else {
                        s.append("[out] ");
                    }
                    push_pad3(cur, &mut s);
                    s.append(": ");
                    s.append(tstr);
                    Some(s)
                }
            },
        };
        match emitted {
            Some(s) => {
                let ghost line_v = s@;
                assert(spec_leftover_line(m, logm[i as int], cur as nat) == Some(line_v));
                lines.push(s);
                proof {
                    assert(seq_views(lines@) =~= prev.push(line_v));
                    assert(prev.push(line_v) =~= prev + seq![line_v]);
                    assert((prev + seq![line_v]) + spec_leftover_lines(
                        m,
                        logm.subrange(i + 1, logm.len() as int),
                        cur as nat + 1,
                    ) =~= prev + spec_leftover_lines(m, suffix, cur as nat));
                    assert(lines.len() <= usize::MAX);
                }
                cur = cur + 1;
            },
            None => {
                proof {
                    assert(spec_leftover_line(m, logm[i as int], cur as nat) is None);
                }
            },
        }
        i += 1;
    }
    proof {
        assert(logm.subrange(n as int, logm.len() as int) =~= Seq::<LogModel>::empty());
        assert(seq_views(lines@) + Seq::<Seq<char>>::empty() =~= seq_views(lines@));
        assert(seq_views(lines@) =~= seq_views(old(lines)@) + target);
    }
    cur
}

/// The whole failure transcript: the kept step records in transcript
/// order with their logs, then the unattributed raw log lines, then the
/// failure-context block, as numbered display lines.
pub fn failure_report(stats: &BuildStats, now_ms: u64) -> (r: Vec<String>)
    requires
        stats.inv(),
    ensures
        exists|evs: Seq<EventModel>| #[trigger] report_shape(
            stats@,
            stats.events_seq(),
            evs,
            seq_views(r@),
            now_ms,
        ),
{
    let ghost m = stats@;
    let ordered = ordered_events(stats);
    let ghost evs = event_views(ordered@);
    let mut lines: Vec<String> = Vec::new();
    let mut ln: u128 = 1;
    let n = ordered.len();
    proof {
        assert(evs.subrange(0, evs.len() as int) =~= evs);
        assert(seq_views(lines@) =~= Seq::<Seq<char>>::empty());
    }
    let mut k: usize = 0;
    while k < n
        invariant
            k <= n,
            n == ordered@.len(),
            evs == event_views(ordered@),
            ln as nat == 1 + lines@.len(),
            seq_views(lines@) + spec_events_lines(
                evs.subrange(k as int, evs.len() as int),
                ln as nat,
            ) == spec_events_lines(evs, 1),
        decreases n - k,
    {
        let ghost suffix = evs.subrange(k as int, evs.len() as int);
        proof {
            assert(suffix[0] == evs[k as int]);
            assert(evs[k as int] == ordered@[k as int]@);
            assert(suffix.drop_first() =~= evs.subrange(k + 1, evs.len() as int));
        }
        let ghost prev = seq_views(lines@);
        ln = emit_event_lines(&ordered[k], ln, &mut lines);
        proof {
            assert(seq_views(lines@) =~= prev + spec_event_lines(evs[k as int], (1
                + prev.len()) as nat));
        }
        k += 1;
    }
    proof {
        assert(evs.subrange(n as int, evs.len() as int) =~= Seq::<EventModel>::empty());
        assert(seq_views(lines@) + Seq::<Seq<char>>::empty() =~= seq_views(lines@));
        assert(seq_views(lines@) =~= spec_events_lines(evs, 1));
    }
    let ghost after_events = seq_views(lines@);
    ln = emit_leftover_lines(stats, ln, &mut lines);
    let ghost after_leftover = seq_views(lines@);
    let mut s0 = String::new();
    s0.append("Failure context:");
    lines.push(s0);
    proof {
        assert(seq_views(lines@) =~= after_leftover + seq!["Failure context:"@]);
    }
    let ghost ctx1 = seq_views(lines@);
    if stats.total_steps() > 0 {
        let mut s = String::new();
        s.append("  step ");
        push_dec(stats.current_step() as u64, &mut s);
        s.append("/");
        push_dec(stats.total_steps() as u64, &mut s);
        s.append(" at failure");
        let ghost line_v = s@;
        lines.push(s);
        proof {
            assert(seq_views(lines@) =~= ctx1 + seq![line_v]);
        }
    }
    let ghost ctx2 = seq_views(lines@);
    if stats.layers_processed() > 0 {
        let mut s = String::new();
        s.append("  ");
        push_dec(stats.layers_processed(), &mut s);
        s.append(" layers processed before failure");
        let ghost line_v = s@;
        lines.push(s);
        proof {
            assert(seq_views(lines@) =~= ctx2 + seq![line_v]);
        }
    }
    let ghost ctx3 = seq_views(lines@);
    match stats.build_start_time_ms() {
        Some(start) => {
            let ms = if now_ms >= start {
                now_ms - start
            } else {
                0
            };
            let mut s = String::new();
            s.append("  build ran for ");
            push_seconds(ms, &mut s);
            s.append(" before failing");
            let ghost line_v = s@;
            lines.push(s);
            proof {
                assert(seq_views(lines@) =~= ctx3 + seq![line_v]);
            }
        },
        None => {},
    }
    proof {
        assert(seq_views(lines@) =~= after_leftover + spec_context_lines(m, now_ms));
        assert(seq_views(lines@) =~= spec_events_lines(evs, 1) + spec_leftover_lines(
            m,
            m.build_log,
            1 + spec_events_lines(evs, 1).len(),
        ) + spec_context_lines(m, now_ms));
        assert(report_shape(m, stats.events_seq(), evs, seq_views(lines@), now_ms));
    }
    lines
}

} // verus!
