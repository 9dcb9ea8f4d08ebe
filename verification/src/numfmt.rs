//! Decimal rendering of unsigned integers, verified against a sequence-level
//! specification. All higher-level formatting (byte sizes, percentages,
//! durations) is built from these pieces.

use vstd::prelude::*;
use vstd::string::StringExecFns;

verus! {

/// The character for a single decimal digit.
pub open spec fn digit_char(d: nat) -> char {
    if d == 0 {
        '0'
    } else if d == 1 {
        '1'
    } else if d == 2 {
        '2'
    } else if d == 3 {
        '3'
    } else if d == 4 {
        '4'
    } else if d == 5 {
        '5'
    } else if d == 6 {
        '6'
    } else if d == 7 {
        '7'
    } else if d == 8 {
        '8'
    } else {
        '9'
    }
}

/// The usual base-10 rendering of `n`, most significant digit first,
/// without leading zeros (except for `n == 0`, rendered as "0").
pub open spec fn dec_digits(n: nat) -> Seq<char>
    decreases n,
{
    if n < 10 {
        seq![digit_char(n)]
    } else {
        dec_digits(n / 10) + seq![digit_char(n % 10)]
    }
}

/// A one-character string for the digit `d`.
fn digit_str(d: u64) -> (r: &'static str)
    requires
        d < 10,
    ensures
        r@ == seq![digit_char(d as nat)],
{
    proof {
        reveal_strlit("0");
        reveal_strlit("1");
        reveal_strlit("2");
        reveal_strlit("3");
        reveal_strlit("4");
        reveal_strlit("5");
        reveal_strlit("6");
        reveal_strlit("7");
        reveal_strlit("8");
        reveal_strlit("9");
    }
    if d == 0 {
        "0"
    } else if d == 1 {
        "1"
    } else if d == 2 {
        "2"
    } else if d == 3 {
        "3"
    } else if d == 4 {
        "4"
    } else if d == 5 {
        "5"
    } else if d == 6 {
        "6"
    } else if d == 7 {
        "7"
    } else if d == 8 {
        "8"
    } else {
        "9"
    }
}

/// Appends the decimal rendering of `n` to `out`.
pub fn push_dec(n: u64, out: &mut String)
    ensures
        final(out)@ == old(out)@ + dec_digits(n as nat),
    decreases n,
{
    if n >= 10 {
        push_dec(n / 10, out);
    }
    out.append(digit_str(n % 10));
}

/// The decimal rendering of `n` as a fresh string.
pub fn u64_to_dec(n: u64) -> (s: String)
    ensures
        s@ == dec_digits(n as nat),
{
    let mut s = String::new();
    push_dec(n, &mut s);
    assert(s@ =~= dec_digits(n as nat));
    s
}

/// A quantity in tenths, rendered with one decimal place: `15` is "1.5".
pub open spec fn dec_tenths(t: nat) -> Seq<char> {
    dec_digits(t / 10) + "."@ + seq![digit_char(t % 10)]
}

/// Appends the one-decimal rendering of the tenths quantity `t`.
pub fn push_tenths(t: u64, out: &mut String)
    ensures
        final(out)@ == old(out)@ + dec_tenths(t as nat),
{
    push_dec(t / 10, out);
    out.append(".");
    out.append(digit_str(t % 10));
}

/// 1024 raised to the power `k`.
pub open spec fn pow1024(k: nat) -> nat
    decreases k,
{
    if k == 0 {
        1
    } else {
        1024 * pow1024((k - 1) as nat)
    }
}

/// The binary-multiple scale of a byte count: 0 for bytes up to 4 for
/// terabytes, the largest scale whose unit does not exceed the count.
pub open spec fn byte_scale(n: nat) -> nat {
    if n < 1024 {
        0
    } else if n < pow1024(2) {
        1
    } else if n < pow1024(3) {
        2
    } else if n < pow1024(4) {
        3
    } else {
        4
    }
}

/// The unit suffix of each binary scale.
pub open spec fn byte_unit(k: nat) -> Seq<char> {
    if k == 0 {
        " B"@
    } else if k == 1 {
        " KB"@
    } else if k == 2 {
        " MB"@
    } else if k == 3 {
        " GB"@
    } else {
        " TB"@
    }
}

/// A byte count scaled by successive division by 1024, with one decimal
/// place at every scale above bytes: `0` is "0 B", `1536` is "1.5 KB".
/// The decimal is truncated, not rounded.
pub open spec fn spec_format_bytes(n: nat) -> Seq<char> {
    let k = byte_scale(n);
    if k == 0 {
        dec_digits(n) + byte_unit(0)
    } else {
        dec_tenths(n * 10 / pow1024(k)) + byte_unit(k)
    }
}

proof fn lemma_pow1024_small()
    ensures
        pow1024(1) == 1024,
        pow1024(2) == 1024 * 1024,
        pow1024(3) == 1024 * 1024 * 1024,
        pow1024(4) == 1024 * 1024 * 1024 * 1024,
{
    assert(pow1024(0) == 1);
    assert(pow1024(1) == 1024 * pow1024(0));
    assert(pow1024(2) == 1024 * pow1024(1));
    assert(pow1024(3) == 1024 * pow1024(2));
    assert(pow1024(4) == 1024 * pow1024(3));
}

fn byte_unit_str(k: u64) -> (r: &'static str)
    requires
        k <= 4,
    ensures
        r@ == byte_unit(k as nat),
{
    if k == 0 {
        " B"
    } else if k == 1 {
        " KB"
    } else if k == 2 {
        " MB"
    } else if k == 3 {
        " GB"
    } else {
        " TB"
    }
}

/// Renders a byte count human-scaled in binary multiples.
pub fn format_bytes(bytes: u64) -> (s: String)
    ensures
        s@ == spec_format_bytes(bytes as nat),
{
    let kb: u64 = 1024;
    let mb: u64 = 1024 * 1024;
    let gb: u64 = 1024 * 1024 * 1024;
    let tb: u64 = 1024 * 1024 * 1024 * 1024;
    proof {
        lemma_pow1024_small();
    }
    if bytes < kb {
        let mut s = u64_to_dec(bytes);
        s.append(byte_unit_str(0));
        return s;
    }
    let (k, unit): (u64, u64) = if bytes < mb {
        (1, kb)
    } else if bytes < gb {
        (2, mb)
    } else if bytes < tb {
        (3, gb)
    } else {
        (4, tb)
    };
    let tenths_wide: u128 = (bytes as u128) * 10 / (unit as u128);
    assert(tenths_wide <= u64::MAX) by {
        assert((bytes as int) * 10 / (unit as int) <= (bytes as int) * 10 / 1024) by (nonlinear_arith)
            requires
                unit >= 1024,
        ;
        assert((bytes as int) * 10 / 1024 <= u64::MAX) by (nonlinear_arith)
            requires
                bytes <= u64::MAX,
        ;
    }
    let tenths = tenths_wide as u64;
    let mut s = String::new();
    push_tenths(tenths, &mut s);
    s.append(byte_unit_str(k));
    assert(s@ == spec_format_bytes(bytes as nat));
    s
}

/// A ratio as tenths of a percent: `hits` out of `total`, 0 when `total`
/// is 0. `333` stands for "33.3%".
pub open spec fn percent_tenths(hits: nat, total: nat) -> nat {
    if total == 0 {
        0
    } else {
        hits * 1000 / total
    }
}

/// The "d.d%" rendering of a percentage in tenths.
pub open spec fn spec_percent(hits: nat, total: nat) -> Seq<char> {
    dec_tenths(percent_tenths(hits, total)) + "%"@
}

/// Appends the percentage of `hits` among `hits + misses`, with one
/// decimal place.
pub fn push_ratio(hits: u64, misses: u64, out: &mut String)
    ensures
        final(out)@ == old(out)@ + spec_percent(hits as nat, (hits + misses) as nat),
{
    if hits == 0 && misses == 0 {
        push_tenths(0, out);
    } else {
        let total: u128 = hits as u128 + misses as u128;
        let wide: u128 = (hits as u128) * 1000 / total;
        assert(wide <= 1000) by {
            assert((hits as int) * 1000 / (hits as int + misses as int) <= 1000)
                by (nonlinear_arith)
                requires
                    1 <= hits as int + misses as int && 0 <= hits,
            ;
        }
        push_tenths(wide as u64, out);
    }
    out.append("%");
}

/// The saturating sum used where two counters are displayed together.
pub fn sat_add(a: u64, b: u64) -> (r: u64)
    ensures
        r as nat == crate::model::sat_add_u64(a as nat, b as nat),
{
    if a > u64::MAX - b {
        u64::MAX
    } else {
        a + b
    }
}

/// An elapsed time in milliseconds, scaled for reading: milliseconds under
/// one second, seconds with one decimal under a minute, minutes with one
/// decimal beyond. Decimals are truncated.
pub open spec fn spec_format_duration(ms: nat) -> Seq<char> {
    if ms < 1000 {
        dec_digits(ms) + "ms"@
    } else if ms < 60000 {
        dec_tenths(ms / 100) + "s"@
    } else {
        dec_tenths(ms / 6000) + "m"@
    }
}

/// Appends an elapsed time in milliseconds human-scaled.
pub fn push_duration(ms: u64, out: &mut String)
    ensures
        final(out)@ == old(out)@ + spec_format_duration(ms as nat),
{
    if ms < 1000 {
        push_dec(ms, out);
        out.append("ms");
    } else if ms < 60000 {
        push_tenths(ms / 100, out);
        out.append("s");
    } else {
        push_tenths(ms / 6000, out);
        out.append("m");
    }
}

/// Renders an elapsed time in milliseconds human-scaled.
pub fn format_duration_ms(ms: u64) -> (s: String)
    ensures
        s@ == spec_format_duration(ms as nat),
{
    let mut s = String::new();
    push_duration(ms, &mut s);
    assert(s@ =~= spec_format_duration(ms as nat));
    s
}

/// The elapsed seconds rendering "d.ds" used by summaries.
pub open spec fn spec_seconds(ms: nat) -> Seq<char> {
    dec_tenths(ms / 100) + "s"@
}

/// Appends the elapsed time in seconds with one decimal place.
pub fn push_seconds(ms: u64, out: &mut String)
    ensures
        final(out)@ == old(out)@ + spec_seconds(ms as nat),
{
    push_tenths(ms / 100, out);
    out.append("s");
}

/// The decimal rendering of `n`, right-aligned to at least three columns.
pub open spec fn spec_pad3(n: nat) -> Seq<char> {
    let d = dec_digits(n);
    if d.len() >= 3 {
        d
    } else if d.len() == 2 {
        " "@ + d
    } else {
        "  "@ + d
    }
}

/// Appends the decimal rendering of a wide counter.
pub fn push_dec_wide(n: u128, out: &mut String)
    ensures
        final(out)@ == old(out)@ + dec_digits(n as nat),
    decreases n,
{
    if n >= 10 {
        push_dec_wide(n / 10, out);
    }
    out.append(digit_str((n % 10) as u64));
}

/// Appends a wide counter right-aligned to at least three columns.
pub fn push_pad3(n: u128, out: &mut String)
    ensures
        final(out)@ == old(out)@ + spec_pad3(n as nat),
{
    proof {
        lemma_dec_digits_len(n as nat);
    }
    if n >= 100 {
        push_dec_wide(n, out);
    } else if n >= 10 {
        out.append(" ");
        push_dec_wide(n, out);
    } else {
        out.append("  ");
        push_dec_wide(n, out);
    }
}

/// How many digits a decimal rendering has, at the boundaries three
/// columns care about.
proof fn lemma_dec_digits_len(n: nat)
    ensures
        n < 10 ==> dec_digits(n).len() == 1,
        10 <= n < 100 ==> dec_digits(n).len() == 2,
        n >= 100 ==> dec_digits(n).len() >= 3,
    decreases n,
{
    if n >= 10 {
        lemma_dec_digits_len(n / 10);
    }
}

} // verus!
