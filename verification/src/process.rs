//! The judged process as the parent sees it: its command and limits, the
//! status decoded from `wait`, the timing budgets layered around a run,
//! and the hardened block list applied on top of the allow policy.

use vstd::prelude::*;

verus! {

use crate::seccomp::{SeccompAction, SeccompRule, SyscallRuleSet};

/// One command to run in the sandbox, with its limits and its working
/// directory on the host.
#[derive(Clone)]
pub struct Process {
    pub cmd: String,
    pub time_limit: i32,
    pub memory_limit: i32,
    pub workdir: String,
}

impl Process {
    /// Records a process description.
    pub fn new(cmd: String, time_limit: i32, memory_limit: i32, workdir: String) -> (p: Process)
        ensures
            p.cmd == cmd,
            p.time_limit == time_limit,
            p.memory_limit == memory_limit,
            p.workdir == workdir,
    {
        let runner = Process { cmd, time_limit, memory_limit, workdir };
        runner
    }
}

/// What one finished run looked like to the parent: decoded exit data,
/// resource use, and an error message when the judge itself failed.
#[derive(Clone)]
pub struct RunnerStatus {
    pub exit_code: i32,
    pub status: i32,
    pub signal: i32,
    pub time_used: i64,
    pub real_time_used: u128,
    pub memory_used: i64,
    pub cgroup_memory_used: i64,
    pub errmsg: String,
}

/// The child exited normally: the low seven status bits are clear.
pub open spec fn wifexited(status: i32) -> bool {
    status & 0x7f == 0
}

/// The exit code of a normally exited child: the second status byte.
pub open spec fn wexitstatus(status: i32) -> i32 {
    (status >> 8) & 0xff
}

/// The child was killed by a signal: the termination-signal bits are
/// neither zero (a normal exit) nor all ones (a stop).
pub open spec fn wifsignaled(status: i32) -> bool {
    status & 0x7f != 0 && status & 0x7f != 0x7f
}

/// The terminating signal: the low seven status bits.
pub open spec fn wtermsig(status: i32) -> i32 {
    status & 0x7f
}

/// The child is stopped: the low status byte is all ones.
pub open spec fn wifstopped(status: i32) -> bool {
    status & 0xff == 0x7f
}

/// The stopping signal: the second status byte.
pub open spec fn wstopsig(status: i32) -> i32 {
    wexitstatus(status)
}

/// CPU time charged to the child, in milliseconds: user plus system time,
/// each truncated to whole milliseconds.
pub open spec fn spec_time_used_ms(
    utime_sec: int,
    utime_usec: int,
    stime_sec: int,
    stime_usec: int,
) -> int {
    utime_sec * 1000 + utime_usec / 1000 + stime_sec * 1000 + stime_usec / 1000
}

/// Decodes one `wait` status and resource reading into a `RunnerStatus`,
/// exactly as the status macros and the millisecond sum prescribe.  The
/// control-group memory reading is not known yet and is marked absent.
pub fn runner_status(
    status: i32,
    utime_sec: i64,
    utime_usec: i64,
    stime_sec: i64,
    stime_usec: i64,
    maxrss: i64,
    real_time_used: u128,
) -> (r: RunnerStatus)
    requires
        0 <= utime_sec <= 0x10_0000_0000,
        0 <= stime_sec <= 0x10_0000_0000,
        0 <= utime_usec < 1_000_000,
        0 <= stime_usec < 1_000_000,
    ensures
        r.exit_code == if wifexited(status) {
            wexitstatus(status)
        } else {
            0
        },
        r.signal == if wifsignaled(status) {
            wtermsig(status)
        } else if wifstopped(status) {
            wstopsig(status)
        } else {
            0
        },
        r.status == status,
        r.time_used == spec_time_used_ms(
            utime_sec as int,
            utime_usec as int,
            stime_sec as int,
            stime_usec as int,
        ),
        r.memory_used == maxrss,
        r.cgroup_memory_used == -1,
        r.real_time_used == real_time_used,
        r.errmsg@ == Seq::<char>::empty(),
{
    let mut exit_code: i32 = 0;
    if status & 0x7f == 0 {
        exit_code = (status >> 8) & 0xff;
    }
    let t = status & 0x7f;
    let signal: i32 = if t != 0 && t != 0x7f {
        t
    } else if status & 0xff == 0x7f {
        (status >> 8) & 0xff
    } else {
        0
    };
    let time_used = utime_sec * 1000 + utime_usec / 1000 + stime_sec * 1000 + stime_usec / 1000;
    RunnerStatus {
        errmsg: String::new(),
        memory_used: maxrss,
        cgroup_memory_used: -1,
        time_used,
        real_time_used,
        exit_code,
        signal,
        status,
    }
}

/// A status reported when the judge itself failed: no program can raise a
/// negative signal, so a negative signal marks the failure and carries the
/// message.
pub fn judge_system_error(errmsg: String) -> (r: RunnerStatus)
    ensures
        r.exit_code == -1,
        r.status == -1,
        r.signal == -1,
        r.time_used == -1,
        r.memory_used == -1,
        r.cgroup_memory_used == -1,
        r.real_time_used == 0,
        r.errmsg == errmsg,
{
    RunnerStatus {
        exit_code: -1,
        status: -1,
        signal: -1,
        time_used: -1,
        memory_used: -1,
        cgroup_memory_used: -1,
        real_time_used: 0,
        errmsg,
    }
}

/// Whole seconds needed to cover `a` milliseconds.
pub open spec fn ceil_div(a: int, b: int) -> int {
    (a + b - 1) / b
}

/// No program can raise a negative signal, so a negative signal marks a
/// judge-internal failure and is mapped to a system error carrying the
/// recorded message; any other status is a normal run outcome.
pub fn check_runner_status(status: &RunnerStatus) -> (r: Result<(), crate::error::Error>)
    ensures
        status.signal >= 0 ==> r is Ok,
        status.signal < 0 ==> (r matches Err(crate::error::Error::SystemError(m)) && m@
            == status.errmsg@),
{
    if status.signal < 0 {
        Err(crate::error::Error::SystemError(status.errmsg.clone()))
    } else {
        Ok(())
    }
}

/// Seconds before the parent's watchdog kills the child.
pub open spec fn spec_watchdog_seconds(time_limit_ms: int) -> int {
    (ceil_div(time_limit_ms, 1000) + 1) * 2
}

/// The parent-side watchdog budget: the CPU budget rounded up to whole
/// seconds, one second of slack, then doubled.
pub fn watchdog_seconds(time_limit_ms: i32) -> (r: u64)
    requires
        time_limit_ms >= 0,
    ensures
        r == spec_watchdog_seconds(time_limit_ms as int),
{
    (((time_limit_ms as u64) + 999) / 1000 + 1) * 2
}

/// Watchdog bound: for any CPU budget, the parent's kill timer fires
/// within twice the rounded-up budget plus one second, so a wait on the
/// child never outlives that wall-clock window.
pub proof fn lemma_watchdog_bound(time_limit_ms: int)
    requires
        time_limit_ms >= 0,
    ensures
        spec_watchdog_seconds(time_limit_ms) <= 2 * (ceil_div(time_limit_ms, 1000) + 1),
{
}

/// The in-child CPU rlimit, in seconds: the budget rounded up, plus one.
pub fn cpu_rlimit_seconds(time_limit_ms: i32) -> (r: u64)
    requires
        time_limit_ms >= 0,
    ensures
        r == ceil_div(time_limit_ms as int, 1000) + 1,
{
    ((time_limit_ms as u64) + 999) / 1000 + 1
}

/// The in-child address-space and data rlimit, in bytes.
pub fn memory_rlimit_bytes(memory_limit_kb: i32) -> (r: u64)
    requires
        memory_limit_kb >= 0,
    ensures
        r == memory_limit_kb as int * 1024,
{
    (memory_limit_kb as u64) * 1024
}

/// The in-child real-time interval timer, in seconds: two seconds of slack
/// over the rounded-up budget, doubled.
pub fn itimer_seconds(time_limit_ms: i32) -> (r: i64)
    requires
        time_limit_ms >= 0,
    ensures
        r == (ceil_div(time_limit_ms as int, 1000) + 2) * 2,
{
    (((time_limit_ms as i64) + 999) / 1000 + 2) * 2
}

/// Index of the first decimal digit at or after `j`, or `l.len()`.
pub open spec fn first_digit_at(l: Seq<char>, j: int) -> int
    decreases l.len() - j,
{
    if j < 0 || j >= l.len() {
        l.len() as int
    } else if crate::sandbox::is_digit(l[j]) {
        j
    } else {
        first_digit_at(l, j + 1)
    }
}

/// Index of the first non-digit at or after `j`, or `l.len()`.
pub open spec fn digit_run_end(l: Seq<char>, j: int) -> int
    decreases l.len() - j,
{
    if j < 0 || j >= l.len() {
        l.len() as int
    } else if !crate::sandbox::is_digit(l[j]) {
        j
    } else {
        digit_run_end(l, j + 1)
    }
}

/// The line reports the resident-set size.
pub open spec fn is_vmrss_line(l: Seq<char>) -> bool {
    l.len() >= 6 && l.take(6) == "VmRSS:"@
}

/// Index of the first resident-set line, or the number of lines.
pub open spec fn spec_vmrss_index(lines: Seq<Seq<char>>) -> int
    decreases lines.len(),
{
    if lines.len() == 0 {
        0
    } else if is_vmrss_line(lines[0]) {
        0
    } else {
        1 + spec_vmrss_index(lines.skip(1))
    }
}

/// The number carried by a status line: its first run of decimal digits,
/// or nothing when the line holds no digit.
pub open spec fn spec_line_number(l: Seq<char>) -> Option<int> {
    let d0 = first_digit_at(l, 0);
    if d0 == l.len() {
        None
    } else {
        Some(crate::sandbox::spec_digits_val(l.subrange(d0, digit_run_end(l, d0))))
    }
}

/// The resident-set reading of a `/proc` status text, in kilobytes: the
/// first number on the first `VmRSS:` line, or nothing when no such line
/// carries one.
pub open spec fn spec_vm_rss(text: Seq<char>) -> Option<int> {
    let lines = crate::sandbox::split_chars(text, '\n');
    let i = spec_vmrss_index(lines);
    if i == lines.len() {
        None
    } else {
        spec_line_number(lines[i])
    }
}

proof fn lemma_first_digit_at(l: Seq<char>, j: int)
    requires
        0 <= j <= l.len(),
    ensures
        j <= first_digit_at(l, j) <= l.len(),
        first_digit_at(l, j) < l.len() ==> crate::sandbox::is_digit(l[first_digit_at(l, j)]),
        forall|p: int| j <= p < first_digit_at(l, j) ==> !crate::sandbox::is_digit(#[trigger] l[p]),
    decreases l.len() - j,
{
    if j < l.len() && !crate::sandbox::is_digit(l[j]) {
        lemma_first_digit_at(l, j + 1);
    }
}

proof fn lemma_digit_run_end(l: Seq<char>, j: int)
    requires
        0 <= j <= l.len(),
    ensures
        j <= digit_run_end(l, j) <= l.len(),
        digit_run_end(l, j) < l.len() ==> !crate::sandbox::is_digit(l[digit_run_end(l, j)]),
        forall|p: int| j <= p < digit_run_end(l, j) ==> crate::sandbox::is_digit(#[trigger] l[p]),
    decreases l.len() - j,
{
    if j < l.len() && crate::sandbox::is_digit(l[j]) {
        lemma_digit_run_end(l, j + 1);
    }
}

/// Reads a digit run as `spec_line_number` says: the line's first number,
/// or nothing when the line holds no digit or the number overflows.
fn line_number(l: &str) -> (r: Option<i64>)
    ensures
        match r {
            Some(kb) => spec_line_number(l@) == Some(kb as int),
            None => spec_line_number(l@) is None || (spec_line_number(l@) matches Some(v) && v
                > i64::MAX),
        },
{
    let n = l.unicode_len();
    let mut d0: usize = 0;
    while d0 < n
        invariant
            n == l@.len(),
            d0 <= n,
            forall|p: int| 0 <= p < d0 ==> !crate::sandbox::is_digit(#[trigger] l@[p]),
        ensures
            d0 <= n,
            forall|p: int| 0 <= p < d0 ==> !crate::sandbox::is_digit(#[trigger] l@[p]),
            d0 < n ==> crate::sandbox::is_digit(l@[d0 as int]),
        decreases n - d0,
    {
        let c = l.get_char(d0) as u32;
        if 48 <= c && c <= 57 {
            break;
        }
        d0 = d0 + 1;
    }
    proof {
        lemma_first_digit_at(l@, 0);
        if d0 < n {
            assert(first_digit_at(l@, 0) == d0 as int) by {
                if first_digit_at(l@, 0) < d0 as int {
                    assert(!crate::sandbox::is_digit(l@[first_digit_at(l@, 0)]));
                }
                if first_digit_at(l@, 0) > d0 as int {
                    assert(!crate::sandbox::is_digit(l@[d0 as int]));
                }
            }
        }
    }
    if d0 == n {
        return None;
    }
    let mut d1: usize = d0;
    while d1 < n
        invariant
            n == l@.len(),
            d0 <= d1 <= n,
            forall|p: int| d0 <= p < d1 ==> crate::sandbox::is_digit(#[trigger] l@[p]),
        ensures
            d0 <= d1 <= n,
            forall|p: int| d0 <= p < d1 ==> crate::sandbox::is_digit(#[trigger] l@[p]),
            d1 < n ==> !crate::sandbox::is_digit(l@[d1 as int]),
        decreases n - d1,
    {
        let c = l.get_char(d1) as u32;
        if c < 48 || c > 57 {
            break;
        }
        d1 = d1 + 1;
    }
    proof {
        lemma_digit_run_end(l@, d0 as int);
        assert(digit_run_end(l@, d0 as int) == d1 as int) by {
            if digit_run_end(l@, d0 as int) < d1 as int {
                assert(!crate::sandbox::is_digit(l@[digit_run_end(l@, d0 as int)]));
            }
            if digit_run_end(l@, d0 as int) > d1 as int {
                assert(crate::sandbox::is_digit(l@[d1 as int]));
            }
        }
    }
    let run = l.substring_char(d0, d1);
    let ghost digits = l@.subrange(d0 as int, d1 as int);
    proof {
        assert(run@ =~= digits);
        assert(digits.len() > 0);
        assert(crate::sandbox::is_digit(digits[0]));
        assert(digits[0] as u32 != 45 && digits[0] as u32 != 43);
        assert(digits[0] != '-' && digits[0] != '+');
        assert(crate::sandbox::spec_num_body(run@) == run@);
        assert(crate::sandbox::spec_str_i64(run@) == crate::sandbox::spec_digits_val(digits));
        crate::sandbox::lemma_digits_val_nonneg(digits);
    }
    match crate::sandbox::string_to_i64(run) {
        Ok(kb) => Some(kb),
        Err(_) => None,
    }
}

/// Reads the resident-set size, in kilobytes, out of a `/proc` status
/// text, exactly as `spec_vm_rss` says.  The supervising tracer polls this
/// at every memory-altering syscall of a traced run.
pub fn parse_vm_rss(text: &str) -> (r: Option<i64>)
    ensures
        match r {
            Some(kb) => spec_vm_rss(text@) == Some(kb as int),
            None => spec_vm_rss(text@) is None || (spec_vm_rss(text@) matches Some(v) && v
                > i64::MAX),
        },
{
    let lines = crate::sandbox::split_string(text, '\n');
    let ghost gl = lines@.map_values(|t: String| t@);
    let n = lines.len();
    let mut i: usize = 0;
    proof {
        assert(gl.skip(0) =~= gl);
    }
    while i < n
        invariant
            gl == lines@.map_values(|t: String| t@),
            gl == crate::sandbox::split_chars(text@, '\n'),
            n == lines@.len(),
            i <= n,
            spec_vmrss_index(gl) == i + spec_vmrss_index(gl.skip(i as int)),
            forall|p: int| 0 <= p < i ==> !is_vmrss_line(#[trigger] gl[p]),
        ensures
            i <= n,
            spec_vmrss_index(gl) == i + spec_vmrss_index(gl.skip(i as int)),
            i < n ==> is_vmrss_line(gl[i as int]),
            i == n ==> spec_vmrss_index(gl) >= gl.len(),
        decreases n - i,
    {
        proof {
            assert(gl.skip(i as int)[0] == gl[i as int]);
            assert(gl.skip(i as int).skip(1) =~= gl.skip(i as int + 1));
        }
        let line = lines[i].as_str();
        proof {
            assert(line@ == gl[i as int]);
        }
        if line.unicode_len() >= 6 {
            let prefix = line.substring_char(0, 6);
            if crate::sandbox::str_eq(prefix, "VmRSS:") {
                proof {
                    assert(prefix@ =~= gl[i as int].take(6));
                    assert(is_vmrss_line(gl[i as int]));
                }
                break;
            }
        }
        proof {
            assert(!is_vmrss_line(gl[i as int]));
        }
        i = i + 1;
    }
    if i == n {
        proof {
            assert(spec_vmrss_index(gl) == gl.len()) by {
                lemma_vmrss_index_bound(gl);
            }
        }
        return None;
    }
    proof {
        assert(spec_vmrss_index(gl) == i as int) by {
            assert(spec_vmrss_index(gl.skip(i as int)) == 0);
        }
    }
    line_number(lines[i].as_str())
}

proof fn lemma_vmrss_index_bound(lines: Seq<Seq<char>>)
    ensures
        spec_vmrss_index(lines) <= lines.len(),
    decreases lines.len(),
{
    if lines.len() > 0 && !is_vmrss_line(lines[0]) {
        lemma_vmrss_index_bound(lines.skip(1));
    }
}

/// The syscall numbers the hardened block list denies, in the order their
/// rules are generated.
pub open spec fn denied_syscalls() -> Seq<i64> {
    seq![
        crate::sysnum::SYS_ACCT,
        crate::sysnum::SYS_ADD_KEY,
        crate::sysnum::SYS_BPF,
        crate::sysnum::SYS_CLOCK_ADJTIME,
        crate::sysnum::SYS_CLOCK_SETTIME,
        crate::sysnum::SYS_CREATE_MODULE,
        crate::sysnum::SYS_DELETE_MODULE,
        crate::sysnum::SYS_FINIT_MODULE,
        crate::sysnum::SYS_GET_KERNEL_SYMS,
        crate::sysnum::SYS_GET_MEMPOLICY,
        crate::sysnum::SYS_INIT_MODULE,
        crate::sysnum::SYS_IOPERM,
        crate::sysnum::SYS_IOPL,
        crate::sysnum::SYS_KCMP,
        crate::sysnum::SYS_KEXEC_FILE_LOAD,
        crate::sysnum::SYS_KEXEC_LOAD,
        crate::sysnum::SYS_KEYCTL,
        crate::sysnum::SYS_LOOKUP_DCOOKIE,
        crate::sysnum::SYS_MBIND,
        crate::sysnum::SYS_MOUNT,
        crate::sysnum::SYS_MOVE_PAGES,
        crate::sysnum::SYS_NAME_TO_HANDLE_AT,
        crate::sysnum::SYS_NFSSERVCTL,
        crate::sysnum::SYS_OPEN_BY_HANDLE_AT,
        crate::sysnum::SYS_PERF_EVENT_OPEN,
        crate::sysnum::SYS_PERSONALITY,
        crate::sysnum::SYS_PIVOT_ROOT,
        crate::sysnum::SYS_PROCESS_VM_READV,
        crate::sysnum::SYS_PROCESS_VM_WRITEV,
        crate::sysnum::SYS_PTRACE,
        crate::sysnum::SYS_QUERY_MODULE,
        crate::sysnum::SYS_QUOTACTL,
        crate::sysnum::SYS_REBOOT,
        crate::sysnum::SYS_REQUEST_KEY,
        crate::sysnum::SYS_SET_MEMPOLICY,
        crate::sysnum::SYS_SETNS,
        crate::sysnum::SYS_SETTIMEOFDAY,
        crate::sysnum::SYS_SWAPON,
        crate::sysnum::SYS_SWAPOFF,
        crate::sysnum::SYS_SYSFS,
        crate::sysnum::SYS_SYSCTL,
        crate::sysnum::SYS_UMOUNT2,
        crate::sysnum::SYS_UNSHARE,
        crate::sysnum::SYS_USELIB,
        crate::sysnum::SYS_USERFAULTFD,
        crate::sysnum::SYS_USTAT,
    ]
}

/// One unconditional kill rule set per blocked syscall, in the order of
/// `denied_syscalls`: module loading, tracing, keyrings, mounts and the
/// other administrative calls a judged program has no business making.
#[verifier::rlimit(100)]
pub fn deny_syscalls() -> (r: Vec<SyscallRuleSet>)
    ensures
        r@.len() == denied_syscalls().len(),
        forall|i: int|
            0 <= i < r@.len() ==> {
                &&& (#[trigger] r@[i]).0 == denied_syscalls()[i]
                &&& r@[i].1@.len() == 1
                &&& r@[i].1@[0].conditions@.len() == 0
                &&& r@[i].1@[0].action == SeccompAction::Kill
            },
{
    let mut v: Vec<SyscallRuleSet> = Vec::new();
    v.push(deny_syscall(crate::sysnum::SYS_ACCT));
    v.push(deny_syscall(crate::sysnum::SYS_ADD_KEY));
    v.push(deny_syscall(crate::sysnum::SYS_BPF));
    v.push(deny_syscall(crate::sysnum::SYS_CLOCK_ADJTIME));
    v.push(deny_syscall(crate::sysnum::SYS_CLOCK_SETTIME));
    v.push(deny_syscall(crate::sysnum::SYS_CREATE_MODULE));
    v.push(deny_syscall(crate::sysnum::SYS_DELETE_MODULE));
    v.push(deny_syscall(crate::sysnum::SYS_FINIT_MODULE));
    v.push(deny_syscall(crate::sysnum::SYS_GET_KERNEL_SYMS));
    v.push(deny_syscall(crate::sysnum::SYS_GET_MEMPOLICY));
    proof { assert(v@.len() == 10); }
    v.push(deny_syscall(crate::sysnum::SYS_INIT_MODULE));
    v.push(deny_syscall(crate::sysnum::SYS_IOPERM));
    v.push(deny_syscall(crate::sysnum::SYS_IOPL));
    v.push(deny_syscall(crate::sysnum::SYS_KCMP));
    v.push(deny_syscall(crate::sysnum::SYS_KEXEC_FILE_LOAD));
    v.push(deny_syscall(crate::sysnum::SYS_KEXEC_LOAD));
    v.push(deny_syscall(crate::sysnum::SYS_KEYCTL));
    v.push(deny_syscall(crate::sysnum::SYS_LOOKUP_DCOOKIE));
    v.push(deny_syscall(crate::sysnum::SYS_MBIND));
    v.push(deny_syscall(crate::sysnum::SYS_MOUNT));
    proof { assert(v@.len() == 20); }
    v.push(deny_syscall(crate::sysnum::SYS_MOVE_PAGES));
    v.push(deny_syscall(crate::sysnum::SYS_NAME_TO_HANDLE_AT));
    v.push(deny_syscall(crate::sysnum::SYS_NFSSERVCTL));
    v.push(deny_syscall(crate::sysnum::SYS_OPEN_BY_HANDLE_AT));
    v.push(deny_syscall(crate::sysnum::SYS_PERF_EVENT_OPEN));
    v.push(deny_syscall(crate::sysnum::SYS_PERSONALITY));
    v.push(deny_syscall(crate::sysnum::SYS_PIVOT_ROOT));
    v.push(deny_syscall(crate::sysnum::SYS_PROCESS_VM_READV));
    v.push(deny_syscall(crate::sysnum::SYS_PROCESS_VM_WRITEV));
    v.push(deny_syscall(crate::sysnum::SYS_PTRACE));
    proof { assert(v@.len() == 30); }
    v.push(deny_syscall(crate::sysnum::SYS_QUERY_MODULE));
    v.push(deny_syscall(crate::sysnum::SYS_QUOTACTL));
    v.push(deny_syscall(crate::sysnum::SYS_REBOOT));
    v.push(deny_syscall(crate::sysnum::SYS_REQUEST_KEY));
    v.push(deny_syscall(crate::sysnum::SYS_SET_MEMPOLICY));
    v.push(deny_syscall(crate::sysnum::SYS_SETNS));
    v.push(deny_syscall(crate::sysnum::SYS_SETTIMEOFDAY));
    v.push(deny_syscall(crate::sysnum::SYS_SWAPON));
    v.push(deny_syscall(crate::sysnum::SYS_SWAPOFF));
    v.push(deny_syscall(crate::sysnum::SYS_SYSFS));
    proof { assert(v@.len() == 40); }
    v.push(deny_syscall(crate::sysnum::SYS_SYSCTL));
    v.push(deny_syscall(crate::sysnum::SYS_UMOUNT2));
    v.push(deny_syscall(crate::sysnum::SYS_UNSHARE));
    v.push(deny_syscall(crate::sysnum::SYS_USELIB));
    v.push(deny_syscall(crate::sysnum::SYS_USERFAULTFD));
    v.push(deny_syscall(crate::sysnum::SYS_USTAT));
    proof {
        assert(denied_syscalls().len() == 46);
        assert(v@.len() == 46);
    }
    v
}

/// A single rule set that kills the process when it makes the syscall.
#[inline(always)]
pub fn deny_syscall(syscall_number: i64) -> (r: SyscallRuleSet)
    ensures
        r.0 == syscall_number,
        r.1@.len() == 1,
        r.1@[0].conditions@.len() == 0,
        r.1@[0].action == SeccompAction::Kill,
{
    (syscall_number, vec![SeccompRule::new(Vec::new(), SeccompAction::Kill)])
}

} // verus!
