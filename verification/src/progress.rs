//! The progress presenter: stateless mappings from the current aggregate
//! (and the just-applied event) to a short status line for a progress sink.
//! Classification is a fixed priority of pattern checks over the backend's
//! free-text labels; text that matches no category is echoed trimmed with a
//! generic prefix, and blank text yields no message.

use vstd::prelude::*;
use vstd::string::{StrSliceExecFns, StringExecFns};

use crate::model::{sat_add_u64, StatsModel};
use crate::numfmt::{dec_digits, push_dec, push_ratio, sat_add, spec_percent};
use crate::parse::{
    extract_blob_id, extract_image_name, extract_tag_name, parse_step_info, parse_step_label,
    spec_blob_id, spec_image_name, spec_step_info, spec_step_label, spec_tag_name,
};
use crate::stats::BuildStats;
use crate::text::{
    chars_of, contains_seq, contains_sub, starts_with, starts_with_seq, trim_bounds, trimmed,
};

verus! {

/// The running cache-ratio suffix, shown once anything was counted.
pub open spec fn spec_ratio_suffix(m: StatsModel) -> Seq<char> {
    if m.cache_hits + m.cache_misses > 0 {
        ", "@ + spec_percent(m.cache_hits, m.cache_hits + m.cache_misses) + " cached"@
    } else {
        Seq::empty()
    }
}

fn push_ratio_suffix(stats: &BuildStats, out: &mut String)
    ensures
        final(out)@ == old(out)@ + spec_ratio_suffix(stats@),
{
    let hits = stats.cache_hits();
    let misses = stats.cache_misses();
    if hits > 0 || misses > 0 {
        out.append(", ");
        push_ratio(hits, misses, out);
        out.append(" cached");
    }
}

/// The first eight characters of an identifier, or all of it when shorter.
pub open spec fn spec_head8(s: Seq<char>) -> Seq<char> {
    if s.len() >= 8 {
        s.subrange(0, 8)
    } else {
        s
    }
}

fn push_head8(id: &str, out: &mut String)
    ensures
        final(out)@ == old(out)@ + spec_head8(id@),
{
    let n = id.unicode_len();
    if n >= 8 {
        let h = id.substring_char(0, 8);
        out.append(h);
    } else {
        out.append(id);
    }
}

/// The message a step/vertex update yields: a numbered label shows the
/// step ordinals, its instruction and the running cache ratio; otherwise
/// load, export and metadata phases get their own messages, internal
/// labels are suppressed, and any other nonempty label is echoed.
pub open spec fn spec_render_vertex(
    m: StatsModel,
    name: Seq<char>,
    cached: bool,
    completed: bool,
) -> Option<Seq<char>> {
    match spec_step_label(name) {
        Some(l) => Some(
            (if cached {
                "[cached] "@
            } else if completed {
                "[done] "@
            } else {
                "[build] "@
            }) + dec_digits(m.current_step as nat) + "/"@ + dec_digits(m.total_steps as nat)
                + ": "@ + l.2 + spec_ratio_suffix(m),
        ),
        None => {
            if contains_seq(name, "load"@) {
                Some("Loading: "@ + name)
            } else if contains_seq(name, "export"@) {
                Some("Exporting: "@ + name)
            } else if contains_seq(name, "metadata"@) {
                Some("Resolving image metadata..."@)
            } else if !starts_with_seq(name, "[internal]"@) && name.len() > 0 {
                Some("Working: "@ + name)
            } else {
                None
            }
        },
    }
}

/// Renders the status line for a just-applied step/vertex update. Call it
/// after the update has been folded into `stats`, so the ordinals shown
/// are current.
pub fn render_vertex(stats: &BuildStats, name: &str, cached: bool, completed: bool) -> (r: Option<
    String,
>)
    ensures
        match r {
            Some(s) => spec_render_vertex(stats@, name@, cached, completed) == Some(s@),
            None => spec_render_vertex(stats@, name@, cached, completed) is None,
        },
{
    match parse_step_label(name) {
        Some(l) => {
            let mut s = String::new();
            if cached {
                s.append("[cached] ");
            } else if completed {
                s.append("[done] ");
            } else {
                s.append("[build] ");
            }
            push_dec(stats.current_step() as u64, &mut s);
            s.append("/");
            push_dec(stats.total_steps() as u64, &mut s);
            s.append(": ");
            s.append(l.instruction.as_str());
            push_ratio_suffix(stats, &mut s);
            assert(s@ =~= spec_render_vertex(stats@, name@, cached, completed)->Some_0);
            Some(s)
        },
        None => {
            let cs = chars_of(name);
            let pat_load = chars_of("load");
            let pat_export = chars_of("export");
            let pat_metadata = chars_of("metadata");
            let pat_internal = chars_of("[internal]");
            if contains_sub(&cs, &pat_load) {
                let mut s = String::new();
                s.append("Loading: ");
                s.append(name);
                Some(s)
            } else if contains_sub(&cs, &pat_export) {
                let mut s = String::new();
                s.append("Exporting: ");
                s.append(name);
                Some(s)
            } else if contains_sub(&cs, &pat_metadata) {
                let mut s = String::new();
                s.append("Resolving image metadata...");
                Some(s)
            } else if !starts_with(&cs, &pat_internal) && cs.len() > 0 {
                let mut s = String::new();
                s.append("Working: ");
                s.append(name);
                Some(s)
            } else {
                None
            }
        },
    }
}

/// The message a backend status notice yields.
pub open spec fn spec_render_status(name: Seq<char>) -> Option<Seq<char>> {
    if contains_seq(name, "exporting"@) {
        Some("Exporting layers..."@)
    } else if contains_seq(name, "writing"@) {
        Some("Writing image..."@)
    } else if contains_seq(name, "naming"@) {
        Some("Tagging image..."@)
    } else {
        None
    }
}

/// Renders the status line for a backend status notice.
pub fn render_status(name: &str) -> (r: Option<String>)
    ensures
        match r {
            Some(s) => spec_render_status(name@) == Some(s@),
            None => spec_render_status(name@) is None,
        },
{
    let cs = chars_of(name);
    let pat_exporting = chars_of("exporting");
    let pat_writing = chars_of("writing");
    let pat_naming = chars_of("naming");
    if contains_sub(&cs, &pat_exporting) {
        let mut s = String::new();
        s.append("Exporting layers...");
        Some(s)
    } else if contains_sub(&cs, &pat_writing) {
        let mut s = String::new();
        s.append("Writing image...");
        Some(s)
    } else if contains_sub(&cs, &pat_naming) {
        let mut s = String::new();
        s.append("Tagging image...");
        Some(s)
    } else {
        None
    }
}

/// The message a classic (non-structured) build-output line yields: step
/// markers, pulls, blob copies, layer completions, commits and tags each
/// have a message; unmatched nonempty text is echoed trimmed.
pub open spec fn spec_render_output_line(m: StatsModel, s: Seq<char>) -> Option<Seq<char>> {
    let t = trimmed(s);
    if starts_with_seq(t, "STEP"@) {
        match spec_step_info(t) {
            Some(l) => Some(
                "Step "@ + dec_digits(l.0 as nat) + "/"@ + dec_digits(l.1 as nat) + ": "@ + l.2
                    + spec_ratio_suffix(m),
            ),
            None => None,
        }
    } else if starts_with_seq(t, "Trying to pull"@) {
        match spec_image_name(t) {
            Some(img) => Some(
                "Pulling "@ + img + ", layer "@ + dec_digits(sat_add_u64(m.layers_processed, 1)),
            ),
            None => None,
        }
    } else if starts_with_seq(t, "Getting image source signatures"@) {
        Some("Verifying image signatures..."@)
    } else if starts_with_seq(t, "Copying blob"@) {
        match spec_blob_id(t) {
            Some(id) => Some(
                "Downloading layer "@ + spec_head8(id) + ", "@ + dec_digits(m.layers_downloaded)
                    + " layers total"@,
            ),
            None => Some("Downloading layers..."@),
        }
    } else if starts_with_seq(t, "Copying config"@) {
        Some("Copying configuration..."@)
    } else if starts_with_seq(t, "Writing manifest"@) {
        Some("Writing manifest..."@)
    } else if starts_with_seq(t, "-->"@) {
        let rest = trimmed(t.subrange(3, t.len() as int));
        if starts_with_seq(rest, "Using cache "@) {
            Some(
                "Reusing cached layer "@ + spec_head8(rest.subrange(12, rest.len() as int)) + ", "@
                    + dec_digits(m.cache_hits) + "/"@ + dec_digits(
                    sat_add_u64(m.cache_hits, m.cache_misses),
                ) + " cached"@,
            )
        } else if contains_seq(rest, "Using cache"@) {
            Some("Using cached layer"@)
        } else {
            Some(
                "Layer "@ + spec_head8(rest) + " built, "@ + dec_digits(m.cache_hits) + "/"@
                    + dec_digits(sat_add_u64(m.cache_hits, m.cache_misses)) + " from cache"@,
            )
        }
    } else if starts_with_seq(t, "COMMIT"@) {
        Some("Committing image, "@ + dec_digits(m.layers_processed) + " layers"@)
    } else if starts_with_seq(t, "Successfully tagged"@) {
        match spec_tag_name(t) {
            Some(tag) => Some("Tagged as "@ + tag),
            None => None,
        }
    } else if starts_with_seq(t, "Successfully built"@) {
        let id = trimmed(t.subrange(18, t.len() as int));
        Some(
            "Build completed, ID "@ + spec_head8(id) + ", "@ + spec_percent(
                m.cache_hits,
                m.cache_hits + m.cache_misses,
            ) + " cached"@,
        )
    } else if contains_seq(t, "RUN"@) {
        Some("Executing commands..."@)
    } else if contains_seq(t, "COPY"@) {
        Some("Copying files..."@)
    } else if contains_seq(t, "FROM"@) {
        Some("Setting up base image..."@)
    } else if contains_seq(t, "WORKDIR"@) {
        Some("Setting working directory..."@)
    } else if contains_seq(t, "EXPOSE"@) {
        Some("Configuring ports..."@)
    } else if contains_seq(t, "CMD"@) || contains_seq(t, "ENTRYPOINT"@) {
        Some("Setting up entrypoint..."@)
    } else if t.len() > 0 {
        Some("> "@ + t)
    } else {
        None
    }
}

/// Renders the status line for a classic build-output line, against the
/// current aggregate.
#[verifier::rlimit(80)]
pub fn render_output_line(stats: &BuildStats, line: &str) -> (r: Option<String>)
    ensures
        match r {
            Some(s) => spec_render_output_line(stats@, line@) == Some(s@),
            None => spec_render_output_line(stats@, line@) is None,
        },
{
    let cs0 = chars_of(line);
    let (lo0, hi0) = trim_bounds(&cs0);
    let tstr = line.substring_char(lo0, hi0);
    let ghost t = trimmed(line@);
    assert(tstr@ == t);
    let tv = chars_of(tstr);
    let n = tv.len();
    let mut s = String::new();
    if starts_with(&tv, &chars_of("STEP")) {
        match parse_step_info(tstr) {
            Some(l) => {
                s.append("Step ");
                push_dec(l.current as u64, &mut s);
                s.append("/");
                push_dec(l.total as u64, &mut s);
                s.append(": ");
                s.append(l.instruction.as_str());
                push_ratio_suffix(stats, &mut s);
            },
            None => {
                return None;
            },
        }
    } else if starts_with(&tv, &chars_of("Trying to pull")) {
        match extract_image_name(tstr) {
            Some(img) => {
                s.append("Pulling ");
                s.append(img.as_str());
                s.append(", layer ");
                push_dec(sat_add(stats.layers_processed(), 1), &mut s);
            },
            None => {
                return None;
            },
        }
    } else if starts_with(&tv, &chars_of("Getting image source signatures")) {
        s.append("Verifying image signatures...");
    } else if starts_with(&tv, &chars_of("Copying blob")) {
        match extract_blob_id(tstr) {
            Some(id) => {
                s.append("Downloading layer ");
                push_head8(id.as_str(), &mut s);
                s.append(", ");
                push_dec(stats.layers_downloaded(), &mut s);
                s.append(" layers total");
            },
            None => {
                s.append("Downloading layers...");
            },
        }
    } else if starts_with(&tv, &chars_of("Copying config")) {
        s.append("Copying configuration...");
    } else if starts_with(&tv, &chars_of("Writing manifest")) {
        s.append("Writing manifest...");
    } else if starts_with(&tv, &chars_of("-->")) {
        proof {
            reveal_strlit("-->");
        }
        let rest_full = tstr.substring_char(3, n);
        let cs_rest = chars_of(rest_full);
        let (rlo, rhi) = trim_bounds(&cs_rest);
        let rest_str = rest_full.substring_char(rlo, rhi);
        let ghost rest = trimmed(t.subrange(3, t.len() as int));
        assert(rest_str@ == rest);
        let rv = chars_of(rest_str);
        if starts_with(&rv, &chars_of("Using cache ")) {
            proof {
                reveal_strlit("Using cache ");
            }
            let id = rest_str.substring_char(12, rv.len());
            s.append("Reusing cached layer ");
            push_head8(id, &mut s);
            s.append(", ");
            push_dec(stats.cache_hits(), &mut s);
            s.append("/");
            push_dec(sat_add(stats.cache_hits(), stats.cache_misses()), &mut s);
            s.append(" cached");
        } else if contains_sub(&rv, &chars_of("Using cache")) {
            s.append("Using cached layer");
        } else {
            s.append("Layer ");
            push_head8(rest_str, &mut s);
            s.append(" built, ");
            push_dec(stats.cache_hits(), &mut s);
            s.append("/");
            push_dec(sat_add(stats.cache_hits(), stats.cache_misses()), &mut s);
            s.append(" from cache");
        }
    } else if starts_with(&tv, &chars_of("COMMIT")) {
        s.append("Committing image, ");
        push_dec(stats.layers_processed(), &mut s);
        s.append(" layers");
    } else if starts_with(&tv, &chars_of("Successfully tagged")) {
        match extract_tag_name(tstr) {
            Some(tag) => {
                s.append("Tagged as ");
                s.append(tag.as_str());
            },
            None => {
                return None;
            },
        }
    } else if starts_with(&tv, &chars_of("Successfully built")) {
        proof {
            reveal_strlit("Successfully built");
        }
        let id_full = tstr.substring_char(18, n);
        let cs_id = chars_of(id_full);
        let (ilo, ihi) = trim_bounds(&cs_id);
        let id_str = id_full.substring_char(ilo, ihi);
        assert(id_str@ == trimmed(t.subrange(18, t.len() as int)));
        s.append("Build completed, ID ");
        push_head8(id_str, &mut s);
        s.append(", ");
        push_ratio(stats.cache_hits(), stats.cache_misses(), &mut s);
        s.append(" cached");
    } else if contains_sub(&tv, &chars_of("RUN")) {
        s.append("Executing commands...");
    } else if contains_sub(&tv, &chars_of("COPY")) {
        s.append("Copying files...");
    } else if contains_sub(&tv, &chars_of("FROM")) {
        s.append("Setting up base image...");
    } else if contains_sub(&tv, &chars_of("WORKDIR")) {
        s.append("Setting working directory...");
    } else if contains_sub(&tv, &chars_of("EXPOSE")) {
        s.append("Configuring ports...");
    } else if contains_sub(&tv, &chars_of("CMD")) || contains_sub(&tv, &chars_of("ENTRYPOINT")) {
        s.append("Setting up entrypoint...");
    } else if n > 0 {
        s.append("> ");
        s.append(tstr);
    } else {
        return None;
    }
    assert(s@ =~= spec_render_output_line(stats@, line@)->Some_0);
    Some(s)
}

/// The message an unparsed output line yields, by Dockerfile keyword, with
/// a generic echo for unmatched nonempty text.
pub open spec fn spec_classify_output(s: Seq<char>) -> Option<Seq<char>> {
    if contains_seq(s, "COPY"@) {
        Some("Copying build context..."@)
    } else if contains_seq(s, "RUN"@) {
        Some("Executing build steps..."@)
    } else if contains_seq(s, "FROM"@) {
        Some("Pulling base image..."@)
    } else if contains_seq(s, "WORKDIR"@) {
        Some("Setting up working directory..."@)
    } else if contains_seq(s, "EXPOSE"@) {
        Some("Configuring ports..."@)
    } else if contains_seq(s, "CMD"@) || contains_seq(s, "ENTRYPOINT"@) {
        Some("Setting up entrypoint..."@)
    } else if contains_seq(s, "export"@) {
        Some("Exporting image..."@)
    } else if contains_seq(s, "resolve"@) {
        Some("Resolving dependencies..."@)
    } else if contains_seq(s, "build"@) {
        Some("Building image..."@)
    } else if trimmed(s).len() > 0 {
        Some("> "@ + trimmed(s))
    } else {
        None
    }
}

/// Classifies a raw output line into a progress message by keyword.
pub fn classify_output(line: &str) -> (r: Option<String>)
    ensures
        match r {
            Some(s) => spec_classify_output(line@) == Some(s@),
            None => spec_classify_output(line@) is None,
        },
{
    let cs = chars_of(line);
    let pat_copy = chars_of("COPY");
    let pat_run = chars_of("RUN");
    let pat_from = chars_of("FROM");
    let pat_workdir = chars_of("WORKDIR");
    let pat_expose = chars_of("EXPOSE");
    let pat_cmd = chars_of("CMD");
    let pat_entry = chars_of("ENTRYPOINT");
    let pat_export = chars_of("export");
    let pat_resolve = chars_of("resolve");
    let pat_build = chars_of("build");
    let mut s = String::new();
    if contains_sub(&cs, &pat_copy) {
        s.append("Copying build context...");
    } else if contains_sub(&cs, &pat_run) {
        s.append("Executing build steps...");
    } else if contains_sub(&cs, &pat_from) {
        s.append("Pulling base image...");
    } else if contains_sub(&cs, &pat_workdir) {
        s.append("Setting up working directory...");
    } else if contains_sub(&cs, &pat_expose) {
        s.append("Configuring ports...");
    } else if contains_sub(&cs, &pat_cmd) || contains_sub(&cs, &pat_entry) {
        s.append("Setting up entrypoint...");
    } else if contains_sub(&cs, &pat_export) {
        s.append("Exporting image...");
    } else if contains_sub(&cs, &pat_resolve) {
        s.append("Resolving dependencies...");
    } else if contains_sub(&cs, &pat_build) {
        s.append("Building image...");
    } else {
        let (lo, hi) = trim_bounds(&cs);
        if hi > lo {
            s.append("> ");
            let t = line.substring_char(lo, hi);
            s.append(t);
        } else {
            return None;
        }
    }
    Some(s)
}

} // verus!
