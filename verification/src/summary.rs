//! The final build summary: step count, cache hits against misses (with
//! base-image layers shown when the post-build reconciliation found any),
//! the human-scaled image size and the elapsed build time, rendered as one
//! multi-line block.

use vstd::prelude::*;
use vstd::string::StringExecFns;

use crate::model::{sat_add_u64, StatsModel};
use crate::numfmt::{
    dec_digits, format_bytes, push_dec, push_duration, push_ratio, sat_add, spec_format_bytes,
    spec_format_duration, spec_percent,
};
use crate::stats::BuildStats;

verus! {

/// Milliseconds elapsed from `start` to `now`, zero if the clock moved
/// backwards.
pub open spec fn elapsed_ms(now: u64, start: u64) -> nat {
    if now >= start {
        (now - start) as nat
    } else {
        0
    }
}

/// The step line of the summary.
pub open spec fn spec_steps_info(m: StatsModel) -> Seq<char> {
    if m.total_steps > 0 {
        dec_digits(m.total_steps as nat) + " Dockerfile steps"@
    } else {
        "Build steps"@
    }
}

/// The cache line of the summary.
pub open spec fn spec_cache_info(m: StatsModel) -> Seq<char> {
    if sat_add_u64(m.cache_hits, m.cache_misses) > 0 {
        if m.base_image_layers > 0 {
            dec_digits(m.cache_hits) + " cached ("@ + dec_digits(m.base_image_layers)
                + " base), "@ + dec_digits(m.cache_misses) + " built"@
        } else {
            dec_digits(m.cache_hits) + " cached, "@ + dec_digits(m.cache_misses) + " built"@
        }
    } else {
        "Building layers"@
    }
}

/// The size line of the summary.
pub open spec fn spec_size_info(m: StatsModel) -> Seq<char> {
    if m.total_image_size > 0 {
        spec_format_bytes(m.total_image_size) + " final image"@
    } else {
        "Image ready"@
    }
}

/// The timing line of the summary: milliseconds under a second, seconds
/// with one decimal under a minute, minutes with one decimal beyond.
pub open spec fn spec_timing_info(m: StatsModel, now_ms: u64) -> Seq<char> {
    match m.build_start_time {
        Some(start) => spec_format_duration(elapsed_ms(now_ms, start)) + " total build time"@,
        None => "Build complete"@,
    }
}

/// The whole summary block: steps and layer total, cache partition and hit
/// rate, image size and elapsed time.
pub open spec fn spec_summary(m: StatsModel, now_ms: u64) -> Seq<char> {
    "Build statistics:\n  "@ + spec_steps_info(m) + ", "@ + dec_digits(
        sat_add_u64(m.cache_hits, m.cache_misses),
    ) + " layers total\n  "@ + spec_cache_info(m) + ", "@ + spec_percent(
        m.cache_hits,
        m.cache_hits + m.cache_misses,
    ) + " cache hit rate\n  "@ + spec_size_info(m) + ", "@ + spec_timing_info(m, now_ms)
}

/// Renders the final build summary from the aggregate, with `now_ms` the
/// caller's clock reading in milliseconds.
#[verifier::rlimit(80)]
pub fn summarize(stats: &BuildStats, now_ms: u64) -> (s: String)
    ensures
        s@ == spec_summary(stats@, now_ms),
{
    let hits = stats.cache_hits();
    let misses = stats.cache_misses();
    let base = stats.base_image_layers();
    let total_layers = sat_add(hits, misses);
    let mut s = String::new();
    s.append("Build statistics:\n  ");
    if stats.total_steps() > 0 {
        push_dec(stats.total_steps() as u64, &mut s);
        s.append(" Dockerfile steps");
    } else {
        s.append("Build steps");
    }
    s.append(", ");
    push_dec(total_layers, &mut s);
    s.append(" layers total\n  ");
    if total_layers > 0 {
        if base > 0 {
            push_dec(hits, &mut s);
            s.append(" cached (");
            push_dec(base, &mut s);
            s.append(" base), ");
            push_dec(misses, &mut s);
            s.append(" built");
        } else {
            push_dec(hits, &mut s);
            s.append(" cached, ");
            push_dec(misses, &mut s);
            s.append(" built");
        }
    } else {
        s.append("Building layers");
    }
    s.append(", ");
    push_ratio(hits, misses, &mut s);
    s.append(" cache hit rate\n  ");
    if stats.total_image_size() > 0 {
        let size_text = format_bytes(stats.total_image_size());
        s.append(size_text.as_str());
        s.append(" final image");
    } else {
        s.append("Image ready");
    }
    s.append(", ");
    match stats.build_start_time_ms() {
        Some(start) => {
            let ms = if now_ms >= start {
                now_ms - start
            } else {
                0
            };
            push_duration(ms, &mut s);
            s.append(" total build time");
        },
        None => {
            s.append("Build complete");
        },
    }
    assert(s@ =~= spec_summary(stats@, now_ms));
    s
}

} // verus!
