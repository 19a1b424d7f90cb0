//! The memory guard: when it watches, and when it fires.

use crate::reading::{find_number, find_skips, number_behind, number_is_plain, regroup_three};
use crate::text::{decimal, decimal_spec, is_digit};
use vstd::prelude::*;
use vstd::string::StringExecFns;

verus! {

/// Milliseconds between two looks at the resident memory.
pub const POLL_INTERVAL_MILLIS: u64 = 250;

/// Exit code of a process that the guard ends.
pub const EXIT_CODE_MEMORY_GUARD: i32 = 137;

pub const BYTES_PER_MB: u64 = 1_048_576;

/// The limit to watch; zero megabytes switch the guard off.
pub fn install(limit_mb: u64) -> (watched: Option<u64>)
    ensures
        watched == (if limit_mb == 0 {
            None
        } else {
            Some(limit_mb)
        }),
{
    if limit_mb == 0 {
        return None;
    }
    Some(limit_mb)
}

/// The megabytes in use, where they exceed the limit.
pub fn breach(used_bytes: u64, limit_mb: u64) -> (used_mb: Option<u64>)
    ensures
        used_mb == (if used_bytes as int / BYTES_PER_MB as int > limit_mb {
            Some((used_bytes as int / BYTES_PER_MB as int) as u64)
        } else {
            None
        }),
{
    let used_mb: u64 = used_bytes / BYTES_PER_MB;
    if used_mb > limit_mb {
        Some(used_mb)
    } else {
        None
    }
}

/// What is reported before the guard ends the process.
pub open spec fn breach_text(used_mb: nat, limit_mb: nat) -> Seq<char> {
    "memory limit exceeded ("@ + decimal_spec(used_mb) + " MB > "@ + decimal_spec(limit_mb)
        + " MB), self-terminating"@
}

/// What is reported before the guard ends the process.
pub fn breach_message(used_mb: u64, limit_mb: u64) -> (text: String)
    ensures
        text@ == breach_text(used_mb as nat, limit_mb as nat),
{
    let mut text: String = "memory limit exceeded (".to_string();
    text.append(decimal(used_mb).as_str());
    text.append(" MB > ");
    text.append(decimal(limit_mb).as_str());
    text.append(" MB), self-terminating");
    text
}

/// A process within its limit, to the byte, is never ended.
pub proof fn within_limit_is_safe(used_bytes: u64, limit_mb: u64)
    requires
        used_bytes <= limit_mb * BYTES_PER_MB,
    ensures
        used_bytes as int / BYTES_PER_MB as int <= limit_mb,
{
}

proof fn breach_text_reads_back_by_parts(used: nat, limit: nat)
    ensures
        breach_text(used, limit) == "memory limit exceeded ("@ + (decimal_spec(used as nat) + (" MB > "@ + (decimal_spec(limit as nat) + (" MB), self-terminating"@)))),
{
    let x0 = "memory limit exceeded ("@;
    let x1 = decimal_spec(used as nat);
    let x2 = " MB > "@;
    let x3 = decimal_spec(limit as nat);
    let x4 = " MB), self-terminating"@;
    let s0 = x0;
    let s1 = s0 + x1;
    let s2 = s1 + x2;
    let s3 = s2 + x3;
    let s4 = s3 + x4;
    let r4 = x4;
    let r3 = x3 + r4;
    let r2 = x2 + r3;
    let r1 = x1 + r2;
    let r0 = x0 + r1;
    regroup_three(s2, x3, r4);
    regroup_three(s1, x2, r3);
    regroup_three(s0, x1, r2);
}

proof fn breach_text_reads_back_used(used: nat, limit: nat)
    ensures
        number_behind(breach_text(used, limit), "("@) == Some(used as int),
{
    let mark = "("@;
    breach_text_reads_back_by_parts(used, limit);
    assert(mark.len() == 1 && mark[0] == '(') by {
        reveal_strlit("(");
    }
    let r5 = Seq::<char>::empty();
    let x4 = " MB), self-terminating"@;
    let r4 = x4;
    let x3 = decimal_spec(limit as nat);
    let r3 = x3 + r4;
    let x2 = " MB > "@;
    let r2 = x2 + r3;
    let x1 = decimal_spec(used as nat);
    let r1 = x1 + r2;
    let x0 = "memory limit exceeded ("@;
    let r0 = x0 + r1;
    assert(x0 =~= "memory limit exceeded "@ + mark && !"memory limit exceeded "@.contains(mark[0])) by {
        reveal_strlit("memory limit exceeded (");
        reveal_strlit("memory limit exceeded ");
        reveal_strlit("(");
    }
    regroup_three("memory limit exceeded "@, mark, r1);
    find_skips("memory limit exceeded "@, mark + r1, mark);
    assert(r2.len() > 0 && !is_digit(r2[0])) by {
        reveal_strlit(" MB > ");
        reveal_strlit("(");
    }
    find_number(mark, used as nat, r2);
}

proof fn breach_text_reads_back_limit(used: nat, limit: nat)
    ensures
        number_behind(breach_text(used, limit), "> "@) == Some(limit as int),
{
    let mark = "> "@;
    breach_text_reads_back_by_parts(used, limit);
    assert(mark.len() == 2 && mark[0] == '>') by {
        reveal_strlit("> ");
    }
    let r5 = Seq::<char>::empty();
    let x4 = " MB), self-terminating"@;
    let r4 = x4;
    let x3 = decimal_spec(limit as nat);
    let r3 = x3 + r4;
    let x2 = " MB > "@;
    let r2 = x2 + r3;
    let x1 = decimal_spec(used as nat);
    let r1 = x1 + r2;
    let x0 = "memory limit exceeded ("@;
    let r0 = x0 + r1;
    assert(!x0.contains(mark[0])) by {
        reveal_strlit("memory limit exceeded (");
        reveal_strlit("> ");
    }
    find_skips(x0, r1, mark);
    number_is_plain(used as nat);
    find_skips(x1, r2, mark);
    assert(x2 =~= " MB "@ + mark && !" MB "@.contains(mark[0])) by {
        reveal_strlit(" MB > ");
        reveal_strlit(" MB ");
        reveal_strlit("> ");
    }
    regroup_three(" MB "@, mark, r3);
    find_skips(" MB "@, mark + r3, mark);
    assert(r4.len() > 0 && !is_digit(r4[0])) by {
        reveal_strlit(" MB), self-terminating");
        reveal_strlit("> ");
    }
    find_number(mark, limit as nat, r4);
}

/// The report of a breach tells what is in use and what the limit is.
pub proof fn breach_text_reads_back(used: nat, limit: nat)
    ensures
        number_behind(breach_text(used, limit), "("@) == Some(used as int),
        number_behind(breach_text(used, limit), "> "@) == Some(limit as int),
{
    breach_text_reads_back_used(used, limit);
    breach_text_reads_back_limit(used, limit);
}

/// A process that uses a whole megabyte more than its limit is ended.
pub proof fn beyond_limit_is_ended(used_bytes: u64, limit_mb: u64)
    requires
        used_bytes >= (limit_mb + 1) * BYTES_PER_MB,
    ensures
        used_bytes as int / BYTES_PER_MB as int > limit_mb,
{
}

} // verus!
