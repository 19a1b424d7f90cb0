//! `get`: the limit on what is written out.

use crate::get::{check_size_limit, configured_size_limit, GetError};
use crate::reading::{behind, number_is_plain, split_at_stop, upto};
use crate::text::{decimal, decimal_spec, parse_int_spec};
use vstd::prelude::*;
use vstd::string::StringExecFns;
use vstd::utf8::encode_utf8;

verus! {

/// The number nearest to `n / d`, the even one of two that are equally near.
pub open spec fn nearest_even(n: nat, d: nat) -> nat
    recommends
        d > 0,
{
    let q = n / d;
    let r = n % d;
    if 2 * r < d || (2 * r == d && q % 2 == 0) {
        q
    } else {
        q + 1
    }
}

/// Numbers below this are exact in double precision.
pub const EXACT_LIMIT: u64 = 9_007_199_254_740_992;

/// The distance between neighbouring numbers of double precision at `n`.
pub open spec fn double_step(n: nat) -> nat
    decreases n,
{
    if n < EXACT_LIMIT {
        1
    } else {
        2 * double_step(n / 2)
    }
}

/// `n` in double precision.
pub open spec fn as_double(n: nat) -> nat {
    nearest_even(n, double_step(n)) * double_step(n)
}

/// Tenths of mebibytes in `bytes`, as double precision rounds them.
pub open spec fn mib_tenths(bytes: nat) -> nat {
    nearest_even(as_double(bytes) * 10, 1_048_576)
}

/// A byte count in mebibytes with one decimal.
pub open spec fn mib_text(bytes: nat) -> Seq<char> {
    decimal_spec(mib_tenths(bytes) / 10) + "."@ + decimal_spec(mib_tenths(bytes) % 10) + " MiB"@
}

proof fn double_step_positive(n: nat)
    ensures
        double_step(n) >= 1,
    decreases n,
{
    if n >= EXACT_LIMIT {
        double_step_positive(n / 2);
    }
}

/// The distance between neighbouring numbers of double precision at `n`.
fn step_at(n: u64) -> (step: u64)
    ensures
        step == double_step(n as nat),
        1 <= step <= 4096,
        n < EXACT_LIMIT ==> step == 1,
{
    let mut rest: u64 = n;
    let mut step: u64 = 1;
    while rest >= EXACT_LIMIT
        invariant
            1 <= step <= 4096,
            step * rest <= n,
            step * double_step(rest as nat) == double_step(n as nat),
            n < EXACT_LIMIT ==> step == 1 && rest == n,
        decreases rest,
    {
        proof {
            let half = rest / 2;
            assert(step * 2 * half <= step * rest) by (nonlinear_arith)
                requires
                    2 * half <= rest,
                    step >= 0,
            ;
            let inner = double_step((rest / 2) as nat);
            assert(step * (2 * inner) == (step * 2) * inner) by (nonlinear_arith);
            assert(step * EXACT_LIMIT <= step * rest) by (nonlinear_arith)
                requires
                    EXACT_LIMIT <= rest,
                    step >= 0,
            ;
            assert(step < 2048) by (nonlinear_arith)
                requires
                    step * 9_007_199_254_740_992 <= 18_446_744_073_709_551_615,
            ;
        }
        rest = rest / 2;
        step = step * 2;
    }
    proof {
        assert(step * double_step(rest as nat) == step) by (nonlinear_arith)
            requires
                double_step(rest as nat) == 1,
        ;
    }
    step
}

/// The number nearest to `n / d`, the even one of two that are equally near.
fn round_div(n: u128, d: u128) -> (q: u128)
    requires
        0 < d <= 1_048_576,
    ensures
        q == nearest_even(n as nat, d as nat),
        q <= n as int / d as int + 1,
{
    let q: u128 = n / d;
    let r: u128 = n % d;
    if 2 * r < d || (2 * r == d && q % 2 == 0) {
        q
    } else {
        proof {
            if d == 1 {
                assert(r == 0);
            }
            assert(q < 340_282_366_920_938_463_463_374_607_431_768_211_455u128) by (nonlinear_arith)
                requires
                    q == n / d,
                    d >= 2,
            ;
        }
        q + 1
    }
}

/// A byte count in mebibytes with one decimal.
pub fn format_mib(bytes: u64) -> (text: String)
    ensures
        text@ == mib_text(bytes as nat),
{
    let step: u64 = step_at(bytes);
    let units: u128 = round_div(bytes as u128, step as u128);
    proof {
        assert(bytes as int / step as int <= bytes) by (nonlinear_arith)
            requires
                step >= 1,
                bytes >= 0,
        ;
        assert(units * step <= 18_446_744_073_709_551_616 * 4096) by (nonlinear_arith)
            requires
                units <= 18_446_744_073_709_551_616,
                0 <= step <= 4096,
        ;
    }
    let rounded: u128 = units * step as u128;
    let tenths: u128 = round_div(rounded * 10, 1_048_576);
    let mut text: String = decimal((tenths / 10) as u64);
    text.append(".");
    text.append(decimal((tenths % 10) as u64).as_str());
    text.append(" MiB");
    text
}

/// The text of the error for a document above the limit.
pub open spec fn too_large_text(size: nat, limit: nat) -> Seq<char> {
    "document too large: "@ + mib_text(size) + " > "@ + mib_text(limit)
        + " (use --no-size-limit to override)"@
}

/// Lets a document out, or says that it is too large: above the configured
/// limit, which zero or the override switches off.
pub fn within_cap(content: String, no_size_limit: bool, max_bytes: u64) -> (result: Result<
    String,
    String,
>)
    ensures
        match result {
            Ok(text) => text == content && (no_size_limit || max_bytes == 0 || encode_utf8(
                content@,
            ).len() <= max_bytes),
            Err(text) => !no_size_limit && max_bytes != 0 && encode_utf8(content@).len()
                > max_bytes && text@ == too_large_text(
                encode_utf8(content@).len(),
                max_bytes as nat,
            ),
        },
{
    let limit: Option<u64> = if no_size_limit {
        None
    } else {
        configured_size_limit(max_bytes)
    };
    match check_size_limit(content.as_str(), limit) {
        Ok(_) => Ok(content),
        Err(GetError::DocumentTooLarge { size_bytes, limit_bytes }) => {
            let mut text: String = "document too large: ".to_string();
            text.append(format_mib(size_bytes).as_str());
            text.append(" > ");
            text.append(format_mib(limit_bytes).as_str());
            text.append(" (use --no-size-limit to override)");
            Err(text)
        },
        Err(other) => Err(other.message()),
    }
}

/// Below the limit of exact numbers the size that is shown is the nearest tenth
/// of a mebibyte: off by half a tenth at most.
pub proof fn shown_size_is_the_nearest_tenth(bytes: nat)
    requires
        bytes < EXACT_LIMIT,
    ensures
        -1_048_576 <= 2 * (mib_tenths(bytes) * 1_048_576 - 10 * bytes) <= 1_048_576,
{
    assert(double_step(bytes) == 1);
    assert(bytes / 1 == bytes && bytes % 1 == 0);
    assert(as_double(bytes) == bytes);
    let n = bytes * 10;
    let q = n / 1_048_576;
    let r = n % 1_048_576;
    assert(n == q * 1_048_576 + r);
}

/// The numbers of double precision are as far from a size as half the distance
/// between neighbours at most.
pub proof fn double_is_near(n: nat)
    ensures
        -(double_step(n) as int) <= 2 * (as_double(n) - n) <= double_step(n),
        double_step(n) >= 1,
{
    double_step_positive(n);
    let d = double_step(n);
    let q = n / d;
    let r = n % d;
    assert(n == q * d + r && 0 <= r < d) by (nonlinear_arith)
        requires
            q == n / d,
            r == n % d,
            d >= 1,
    ;
    assert((q + 1) * d == q * d + d) by (nonlinear_arith);
}

/// The size that is shown reads back as tenths of a mebibyte: the whole ones
/// before the point, the last one behind it.
pub proof fn mib_text_reads_back(bytes: nat)
    ensures
        parse_int_spec(upto(mib_text(bytes), '.')) == Some((mib_tenths(bytes) / 10) as int),
        parse_int_spec(upto(behind(mib_text(bytes), '.'), ' ')) == Some(
            (mib_tenths(bytes) % 10) as int,
        ),
{
    let whole = decimal_spec(mib_tenths(bytes) / 10);
    let tenth = decimal_spec(mib_tenths(bytes) % 10);
    number_is_plain(mib_tenths(bytes) / 10);
    number_is_plain(mib_tenths(bytes) % 10);
    assert("."@ =~= seq!['.'] && " MiB"@ =~= seq![' '] + seq!['M', 'i', 'B']) by {
        reveal_strlit(".");
        reveal_strlit(" MiB");
    }
    let rest = tenth + seq![' '] + seq!['M', 'i', 'B'];
    assert(mib_text(bytes) =~= whole + seq!['.'] + rest);
    split_at_stop(whole, '.', rest);
    split_at_stop(tenth, ' ', seq!['M', 'i', 'B']);
}

/// The text for a document above the limit tells its size, then the limit.
pub proof fn too_large_text_tells_both_sizes(size: nat, limit: nat)
    ensures
        ("document too large: "@ + mib_text(size) + " > "@ + mib_text(limit)).is_prefix_of(
            too_large_text(size, limit),
        ),
{
}

} // verus!
