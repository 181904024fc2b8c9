//! Control-group memory policy: the byte limit written for a run, the
//! conversion of the group's peak reading, and the figure reported to the
//! user.  The control files themselves are host filesystem I/O and are
//! written outside the library.

use vstd::prelude::*;

verus! {

/// The byte value written to the group's memory limit for a configured
/// limit in kilobytes: one and a half times the exact conversion, so the
/// kernel kills slightly above the advertised limit and the verdict layer
/// can observe the overrun as a clean memory-limit verdict.
pub open spec fn spec_memory_limit_bytes(memory_limit_kb: int) -> int {
    memory_limit_kb * 1536
}

/// Computes the slackened byte limit written to the memory controller.
pub fn memory_limit_bytes(memory_limit_kb: i32) -> (r: i64)
    requires
        memory_limit_kb >= 0,
    ensures
        r == spec_memory_limit_bytes(memory_limit_kb as int),
{
    (memory_limit_kb as i64) * 1536
}

/// Converts the group's peak byte reading to kilobytes, rounding down.
pub fn max_usage_kb(max_usage_bytes: i64) -> (r: i64)
    requires
        max_usage_bytes >= 0,
    ensures
        r == max_usage_bytes as int / 1024,
{
    max_usage_bytes / 1024
}

/// The memory figure reported to the user: the smaller of the `rusage`
/// peak and the control group's peak, both valid over-approximations.
pub open spec fn spec_reported_memory_kb(rusage_kb: int, cgroup_kb: int) -> int {
    if rusage_kb <= cgroup_kb {
        rusage_kb
    } else {
        cgroup_kb
    }
}

/// Picks the reported memory figure.
pub fn reported_memory_kb(rusage_kb: i64, cgroup_kb: i64) -> (r: i64)
    ensures
        r == spec_reported_memory_kb(rusage_kb as int, cgroup_kb as int),
{
    if rusage_kb <= cgroup_kb {
        rusage_kb
    } else {
        cgroup_kb
    }
}

/// Memory-slack bound: whenever the control group confined the run — its
/// peak reading no more than the slackened byte limit — the reported
/// figure stays within eight fifths (1.6 times) of the configured limit,
/// whatever `rusage` said.
pub proof fn lemma_memory_slack(memory_limit_kb: int, rusage_kb: int, max_usage_bytes: int)
    requires
        memory_limit_kb >= 0,
        0 <= max_usage_bytes <= spec_memory_limit_bytes(memory_limit_kb),
    ensures
        5 * spec_reported_memory_kb(rusage_kb, max_usage_bytes / 1024) <= 8 * memory_limit_kb,
{
    assert(max_usage_bytes / 1024 <= memory_limit_kb * 1536 / 1024);
    assert(memory_limit_kb * 1536 / 1024 * 5 <= 8 * memory_limit_kb) by (nonlinear_arith)
        requires
            memory_limit_kb >= 0,
    ;
}

} // verus!
