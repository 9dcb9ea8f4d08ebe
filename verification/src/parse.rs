//! Parsers for the textual shapes a build backend emits: bracketed step
//! labels (`"[2/4] RUN go build"`), classic step markers
//! (`"STEP 1/4: FROM alpine"`), image pulls, blob digests and image tags.
//! Each parser is a pure function verified against a specification of the
//! format; input that fails a parse yields `None`, never an error.

use vstd::prelude::*;
use vstd::string::StrSliceExecFns;

use crate::text::{
    chars_of, first_char_at, first_sub_at, slice_chars, starts_with, starts_with_seq, sub_at,
    trim_bounds, trimmed,
};

verus! {

/// A decimal digit.
pub open spec fn is_digit(c: char) -> bool {
    48 <= (c as u32) <= 57
}

/// The numeric value of one digit character (0 for non-digits).
pub open spec fn digit_val(c: char) -> nat {
    if is_digit(c) {
        ((c as u32) - 48) as nat
    } else {
        0
    }
}

/// The value of a digit string read in base 10.
pub open spec fn digits_val(s: Seq<char>) -> nat
    decreases s.len(),
{
    if s.len() == 0 {
        0
    } else {
        digits_val(s.drop_last()) * 10 + digit_val(s.last())
    }
}

/// All characters of `s` are decimal digits.
pub open spec fn all_digits(s: Seq<char>) -> bool {
    forall|k: int| 0 <= k < s.len() ==> is_digit(s[k])
}

/// Strict decimal parse: a nonempty, all-digit string whose value fits in
/// `u32`; anything else is rejected.
pub open spec fn spec_parse_u32(s: Seq<char>) -> Option<u32> {
    if s.len() > 0 && all_digits(s) && digits_val(s) <= u32::MAX {
        Some(digits_val(s) as u32)
    } else {
        None
    }
}

proof fn lemma_digits_val_step_mono(s: Seq<char>, j: int)
    requires
        0 <= j < s.len(),
    ensures
        digits_val(s.subrange(0, j + 1)) >= digits_val(s.subrange(0, j)),
{
    let a = s.subrange(0, j + 1);
    assert(a.drop_last() =~= s.subrange(0, j));
    assert(digits_val(a) == digits_val(s.subrange(0, j)) * 10 + digit_val(a.last()));
}

proof fn lemma_digits_val_prefix_mono(s: Seq<char>, i: int, j: int)
    requires
        0 <= i <= j <= s.len(),
    ensures
        digits_val(s.subrange(0, j)) >= digits_val(s.subrange(0, i)),
    decreases j - i,
{
    if i < j {
        lemma_digits_val_prefix_mono(s, i, j - 1);
        lemma_digits_val_step_mono(s, j - 1);
    }
}

/// Parses the digit run `cs[lo..hi]` as a `u32`.
pub fn parse_u32_range(cs: &Vec<char>, lo: usize, hi: usize) -> (r: Option<u32>)
    requires
        lo <= hi <= cs@.len(),
    ensures
        r == spec_parse_u32(cs@.subrange(lo as int, hi as int)),
{
    let ghost t = cs@.subrange(lo as int, hi as int);
    if lo == hi {
        return None;
    }
    let mut acc: u64 = 0;
    let mut i = lo;
    while i < hi
        invariant
            lo <= i <= hi <= cs@.len(),
            t == cs@.subrange(lo as int, hi as int),
            forall|k: int| 0 <= k < i - lo ==> is_digit(t[k]),
            acc == digits_val(t.subrange(0, i - lo)),
            acc <= u32::MAX,
        decreases hi - i,
    {
        let c = cs[i];
        let cv = c as u32;
        if cv < 48 || cv > 57 {
            assert(!is_digit(t[i - lo]));
            return None;
        }
        let d = (cv - 48) as u64;
        acc = acc * 10 + d;
        proof {
            let a = t.subrange(0, i - lo + 1);
            assert(a.drop_last() =~= t.subrange(0, i - lo));
            assert(a.last() == t[i - lo]);
            assert(acc == digits_val(a));
        }
        if acc > 0xffff_ffff {
            proof {
                lemma_digits_val_prefix_mono(t, i - lo + 1, t.len() as int);
                assert(t.subrange(0, t.len() as int) =~= t);
            }
            return None;
        }
        i += 1;
    }
    proof {
        assert(t.subrange(0, t.len() as int) =~= t);
    }
    Some(acc as u32)
}

/// A numbered Dockerfile step parsed out of a vertex label.
pub struct StepLabel {
    /// Ordinal of the step inside the Dockerfile.
    pub current: u32,
    /// Total number of steps announced by the label.
    pub total: u32,
    /// The instruction text after the bracketed marker.
    pub instruction: String,
}

/// Result of parsing a label of the form `"[current/total] instruction"`:
/// the label must open with `[`, hold a `/`-separated pair of ordinals
/// before the first `]`, and the instruction is whatever follows (one
/// separating space skipped). Internal labels such as `"[internal] ..."`
/// fail the numeric parse and yield `None`.
pub open spec fn spec_step_label(s: Seq<char>) -> Option<(u32, u32, Seq<char>)> {
    if s.len() == 0 || s[0] != '[' {
        None
    } else {
        let close = first_char_at(s, ']');
        if close < 0 {
            None
        } else {
            let inner = s.subrange(1, close);
            let slash = first_char_at(inner, '/');
            if slash < 0 {
                None
            } else {
                let cur = spec_parse_u32(inner.subrange(0, slash));
                let tot = spec_parse_u32(inner.subrange(slash + 1, inner.len() as int));
                if cur is Some && tot is Some {
                    let rest = if close + 1 < s.len() && s[close + 1] == ' ' {
                        s.subrange(close + 2, s.len() as int)
                    } else {
                        s.subrange(close + 1, s.len() as int)
                    };
                    Some((cur->Some_0, tot->Some_0, rest))
                } else {
                    None
                }
            }
        }
    }
}

/// Parses a `"[current/total] instruction"` step label.
pub fn parse_step_label(name: &str) -> (r: Option<StepLabel>)
    ensures
        match r {
            Some(l) => spec_step_label(name@) == Some((l.current, l.total, l.instruction@)),
            None => spec_step_label(name@) is None,
        },
{
    let cs = chars_of(name);
    if cs.len() == 0 || cs[0] != '[' {
        return None;
    }
    let close = match crate::text::find_char(&cs, ']') {
        Some(c) => c,
        None => {
            return None;
        },
    };
    assert(close >= 1) by {
        assert(cs@[0] == '[');
    }
    let inner = slice_chars(&cs, 1, close);
    let slash = match crate::text::find_char(&inner, '/') {
        Some(x) => x,
        None => {
            return None;
        },
    };
    let cur = match parse_u32_range(&inner, 0, slash) {
        Some(v) => v,
        None => {
            return None;
        },
    };
    let tot = match parse_u32_range(&inner, slash + 1, inner.len()) {
        Some(v) => v,
        None => {
            return None;
        },
    };
    let n = cs.len();
    let rest_start = if close + 1 < n && cs[close + 1] == ' ' {
        close + 2
    } else {
        close + 1
    };
    let instruction = name.substring_char(rest_start, n).to_owned();
    Some(StepLabel { current: cur, total: tot, instruction })
}

/// A classic `"STEP current/total: instruction"` marker.
pub struct StepInfo {
    /// Ordinal of the step.
    pub current: u32,
    /// Total number of steps.
    pub total: u32,
    /// The instruction text after the colon, trimmed.
    pub instruction: String,
}

/// Result of parsing a marker of the form `"STEP current/total: instruction"`:
/// the line must open with `"STEP "`, the first colon must close the numeric
/// part, the pair is `/`-separated with optional surrounding whitespace, and
/// the instruction is the trimmed remainder after the colon.
pub open spec fn spec_step_info(s: Seq<char>) -> Option<(u32, u32, Seq<char>)> {
    if !starts_with_seq(s, "STEP "@) {
        None
    } else {
        let colon = first_char_at(s, ':');
        if colon < 5 {
            None
        } else {
            let part = s.subrange(5, colon);
            let slash = first_char_at(part, '/');
            if slash < 0 {
                None
            } else {
                let cur = spec_parse_u32(trimmed(part.subrange(0, slash)));
                let tot = spec_parse_u32(trimmed(part.subrange(slash + 1, part.len() as int)));
                if cur is Some && tot is Some {
                    Some((cur->Some_0, tot->Some_0, trimmed(s.subrange(colon + 1, s.len() as int))))
                } else {
                    None
                }
            }
        }
    }
}

/// Parses a `"STEP current/total: instruction"` marker.
pub fn parse_step_info(line: &str) -> (r: Option<StepInfo>)
    ensures
        match r {
            Some(l) => spec_step_info(line@) == Some((l.current, l.total, l.instruction@)),
            None => spec_step_info(line@) is None,
        },
{
    let cs = chars_of(line);
    let pat = chars_of("STEP ");
    proof {
        reveal_strlit("STEP ");
    }
    if !starts_with(&cs, &pat) {
        return None;
    }
    let colon = match crate::text::find_char(&cs, ':') {
        Some(c) => c,
        None => {
            return None;
        },
    };
    if colon < 5 {
        return None;
    }
    let part = slice_chars(&cs, 5, colon);
    let slash = match crate::text::find_char(&part, '/') {
        Some(x) => x,
        None => {
            return None;
        },
    };
    let left = slice_chars(&part, 0, slash);
    let (llo, lhi) = trim_bounds(&left);
    let cur = match parse_u32_range(&left, llo, lhi) {
        Some(v) => v,
        None => {
            assert(left@.subrange(llo as int, lhi as int) == trimmed(part@.subrange(0, slash as int)));
            return None;
        },
    };
    let right = slice_chars(&part, slash + 1, part.len());
    let (rlo, rhi) = trim_bounds(&right);
    let tot = match parse_u32_range(&right, rlo, rhi) {
        Some(v) => v,
        None => {
            return None;
        },
    };
    let n = cs.len();
    let tail = slice_chars(&cs, colon + 1, n);
    let (tlo, thi) = trim_bounds(&tail);
    let instruction = line.substring_char(colon + 1 + tlo, colon + 1 + thi).to_owned();
    assert(instruction@ == trimmed(line@.subrange(colon + 1, n as int))) by {
        assert(line@.subrange(colon + 1 + tlo, colon + 1 + thi as int) =~= tail@.subrange(
            tlo as int,
            thi as int,
        ));
    }
    Some(StepInfo { current: cur, total: tot, instruction })
}

/// Result of scanning a pull line: the text after the first `"pull "`, cut
/// before the first `"..."` if one follows.
pub open spec fn spec_image_name(s: Seq<char>) -> Option<Seq<char>> {
    let p = first_sub_at(s, "pull "@);
    if p < 0 {
        None
    } else {
        let rest = s.subrange(p + 5, s.len() as int);
        let e = first_sub_at(rest, "..."@);
        if e < 0 {
            Some(rest)
        } else {
            Some(rest.subrange(0, e))
        }
    }
}

/// Extracts the image reference from a line like
/// `"Trying to pull docker.io/library/alpine:latest..."`.
pub fn extract_image_name(line: &str) -> (r: Option<String>)
    ensures
        match r {
            Some(img) => spec_image_name(line@) == Some(img@),
            None => spec_image_name(line@) is None,
        },
{
    let cs = chars_of(line);
    let pat = chars_of("pull ");
    proof {
        reveal_strlit("pull ");
    }
    let p = match crate::text::find_sub(&cs, &pat) {
        Some(p) => p,
        None => {
            return None;
        },
    };
    assert(sub_at(cs@, "pull "@, p as int));
    let n = cs.len();
    let rest = slice_chars(&cs, p + 5, n);
    let dots = chars_of("...");
    proof {
        reveal_strlit("...");
    }
    let e = match crate::text::find_sub(&rest, &dots) {
        Some(e) => e,
        None => {
            return Some(line.substring_char(p + 5, n).to_owned());
        },
    };
    assert(line@.subrange(p + 5, p + 5 + e as int) =~= rest@.subrange(0, e as int));
    Some(line.substring_char(p + 5, p + 5 + e).to_owned())
}

/// Result of scanning a tag line: the text after the first `"tagged "`.
pub open spec fn spec_tag_name(s: Seq<char>) -> Option<Seq<char>> {
    let p = first_sub_at(s, "tagged "@);
    if p < 0 {
        None
    } else {
        Some(s.subrange(p + 7, s.len() as int))
    }
}

/// Extracts the tag from a line like
/// `"Successfully tagged docker.io/library/test-build:latest"`.
pub fn extract_tag_name(line: &str) -> (r: Option<String>)
    ensures
        match r {
            Some(tag) => spec_tag_name(line@) == Some(tag@),
            None => spec_tag_name(line@) is None,
        },
{
    let cs = chars_of(line);
    let pat = chars_of("tagged ");
    proof {
        reveal_strlit("tagged ");
    }
    let p = match crate::text::find_sub(&cs, &pat) {
        Some(p) => p,
        None => {
            return None;
        },
    };
    let n = cs.len();
    assert(sub_at(cs@, "tagged "@, p as int));
    assert(p + 7 <= n) by {
        assert(("tagged "@).len() == 7);
    }
    Some(line.substring_char(p + 7, n).to_owned())
}

/// Result of scanning a blob line: the `"sha256:..."` digest running from
/// the first occurrence of `"sha256:"` up to the next space (or the end).
pub open spec fn spec_blob_id(s: Seq<char>) -> Option<Seq<char>> {
    let p = first_sub_at(s, "sha256:"@);
    if p < 0 {
        None
    } else {
        let rest = s.subrange(p, s.len() as int);
        let e = first_char_at(rest, ' ');
        if e < 0 {
            Some(rest)
        } else {
            Some(rest.subrange(0, e))
        }
    }
}

/// Extracts the layer digest from a line like
/// `"Copying blob sha256:fe07684b16b8..."`.
pub fn extract_blob_id(line: &str) -> (r: Option<String>)
    ensures
        match r {
            Some(id) => spec_blob_id(line@) == Some(id@),
            None => spec_blob_id(line@) is None,
        },
{
    let cs = chars_of(line);
    let pat = chars_of("sha256:");
    proof {
        reveal_strlit("sha256:");
    }
    let p = match crate::text::find_sub(&cs, &pat) {
        Some(p) => p,
        None => {
            return None;
        },
    };
    assert(sub_at(cs@, "sha256:"@, p as int));
    let n = cs.len();
    let rest = slice_chars(&cs, p, n);
    let e = match crate::text::find_char(&rest, ' ') {
        Some(e) => e,
        None => {
            return Some(line.substring_char(p, n).to_owned());
        },
    };
    assert(line@.subrange(p as int, p + e as int) =~= rest@.subrange(0, e as int));
    Some(line.substring_char(p, p + e).to_owned())
}

} // verus!
