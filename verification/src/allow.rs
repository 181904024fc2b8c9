//! The run-time syscall policy: the allow list applied to every judged
//! process, and the trace rule used when memory syscalls are watched.

use vstd::prelude::*;

verus! {

use crate::seccomp::{allow_syscall, SeccompAction, SeccompRule, SyscallRuleSet};

/// The syscall numbers the run-time policy allows, in the order their
/// rules are generated.
pub open spec fn allowed_syscalls() -> Seq<i64> {
    seq![
        crate::sysnum::SYS_ACCESS,
        crate::sysnum::SYS_ARCH_PRCTL,
        crate::sysnum::SYS_CHDIR,
        crate::sysnum::SYS_CHMOD,
        crate::sysnum::SYS_CHOWN,
        crate::sysnum::SYS_CLOCK_ADJTIME,
        crate::sysnum::SYS_CLOCK_GETRES,
        crate::sysnum::SYS_CLOCK_GETTIME,
        crate::sysnum::SYS_CLONE,
        crate::sysnum::SYS_CLOSE,
        crate::sysnum::SYS_CONNECT,
        crate::sysnum::SYS_COPY_FILE_RANGE,
        crate::sysnum::SYS_DUP,
        crate::sysnum::SYS_DUP2,
        crate::sysnum::SYS_DUP3,
        crate::sysnum::SYS_EPOLL_CREATE1,
        crate::sysnum::SYS_EPOLL_CTL,
        crate::sysnum::SYS_EPOLL_PWAIT,
        crate::sysnum::SYS_EVENTFD2,
        crate::sysnum::SYS_EPOLL_WAIT,
        crate::sysnum::SYS_EXECVE,
        crate::sysnum::SYS_EXIT,
        crate::sysnum::SYS_EXIT_GROUP,
        crate::sysnum::SYS_FALLOCATE,
        crate::sysnum::SYS_FCHDIR,
        crate::sysnum::SYS_FCHMOD,
        crate::sysnum::SYS_FCHMODAT,
        crate::sysnum::SYS_FCHOWN,
        crate::sysnum::SYS_FCHOWNAT,
        crate::sysnum::SYS_FCNTL,
        crate::sysnum::SYS_FORK,
        crate::sysnum::SYS_FSTAT,
        crate::sysnum::SYS_FTRUNCATE,
        crate::sysnum::SYS_FUTEX,
        crate::sysnum::SYS_GETCWD,
        crate::sysnum::SYS_GETDENTS,
        crate::sysnum::SYS_GETDENTS64,
        crate::sysnum::SYS_GETEGID,
        crate::sysnum::SYS_GETEUID,
        crate::sysnum::SYS_GETGID,
        crate::sysnum::SYS_GETPID,
        crate::sysnum::SYS_GETSOCKNAME,
        crate::sysnum::SYS_GETSOCKOPT,
        crate::sysnum::SYS_GETTID,
        crate::sysnum::SYS_GETRANDOM,
        crate::sysnum::SYS_GETRLIMIT,
        crate::sysnum::SYS_GETRUSAGE,
        crate::sysnum::SYS_GETUID,
        crate::sysnum::SYS_IOCTL,
        crate::sysnum::SYS_LSEEK,
        crate::sysnum::SYS_LSTAT,
        crate::sysnum::SYS_MADVISE,
        crate::sysnum::SYS_MKDIR,
        crate::sysnum::SYS_MKDIRAT,
        crate::sysnum::SYS_MLOCK,
        crate::sysnum::SYS_MPROTECT,
        crate::sysnum::SYS_NANOSLEEP,
        crate::sysnum::SYS_NEWFSTATAT,
        crate::sysnum::SYS_OPEN,
        crate::sysnum::SYS_OPENAT,
        crate::sysnum::SYS_PIPE2,
        crate::sysnum::SYS_POLL,
        crate::sysnum::SYS_PRCTL,
        crate::sysnum::SYS_PREAD64,
        crate::sysnum::SYS_PRLIMIT64,
        crate::sysnum::SYS_PWRITE64,
        crate::sysnum::SYS_PWRITEV,
        crate::sysnum::SYS_READ,
        crate::sysnum::SYS_READLINK,
        crate::sysnum::SYS_READLINKAT,
        crate::sysnum::SYS_RENAME,
        crate::sysnum::SYS_RENAMEAT,
        crate::sysnum::SYS_RMDIR,
        crate::sysnum::SYS_RT_SIGACTION,
        crate::sysnum::SYS_RT_SIGPROCMASK,
        crate::sysnum::SYS_RT_SIGRETURN,
        crate::sysnum::SYS_SCHED_GETAFFINITY,
        crate::sysnum::SYS_SCHED_YIELD,
        crate::sysnum::SYS_SELECT,
        crate::sysnum::SYS_SET_ROBUST_LIST,
        crate::sysnum::SYS_SET_TID_ADDRESS,
        crate::sysnum::SYS_SETSOCKOPT,
        crate::sysnum::SYS_SIGALTSTACK,
        crate::sysnum::SYS_SOCKET,
        crate::sysnum::SYS_SOCKETPAIR,
        crate::sysnum::SYS_STAT,
        crate::sysnum::SYS_STATX,
        crate::sysnum::SYS_SYSINFO,
        crate::sysnum::SYS_TGKILL,
        crate::sysnum::SYS_UNLINKAT,
        crate::sysnum::SYS_UMASK,
        crate::sysnum::SYS_UNAME,
        crate::sysnum::SYS_UNLINK,
        crate::sysnum::SYS_UTIMENSAT,
        crate::sysnum::SYS_VFORK,
        crate::sysnum::SYS_WAIT4,
        crate::sysnum::SYS_WAITID,
        crate::sysnum::SYS_WRITE,
        crate::sysnum::SYS_WRITEV,
    ]
}

/// One unconditional rule set per allowed syscall, in the order of
/// `allowed_syscalls`.  Memory syscalls are absent: the runner adds them
/// as allow or trace rules depending on its mode.
#[verifier::rlimit(100)]
pub fn gen_rules() -> (r: Vec<SyscallRuleSet>)
    ensures
        r@.len() == allowed_syscalls().len(),
        forall|i: int|
            0 <= i < r@.len() ==> {
                &&& (#[trigger] r@[i]).0 == allowed_syscalls()[i]
                &&& r@[i].1@.len() == 1
                &&& r@[i].1@[0].conditions@.len() == 0
                &&& r@[i].1@[0].action == SeccompAction::Allow
            },
{
    let mut v: Vec<SyscallRuleSet> = Vec::new();
    v.push(allow_syscall(crate::sysnum::SYS_ACCESS));
    v.push(allow_syscall(crate::sysnum::SYS_ARCH_PRCTL));
    v.push(allow_syscall(crate::sysnum::SYS_CHDIR));
    v.push(allow_syscall(crate::sysnum::SYS_CHMOD));
    v.push(allow_syscall(crate::sysnum::SYS_CHOWN));
    v.push(allow_syscall(crate::sysnum::SYS_CLOCK_ADJTIME));
    v.push(allow_syscall(crate::sysnum::SYS_CLOCK_GETRES));
    v.push(allow_syscall(crate::sysnum::SYS_CLOCK_GETTIME));
    v.push(allow_syscall(crate::sysnum::SYS_CLONE));
    v.push(allow_syscall(crate::sysnum::SYS_CLOSE));
    proof { assert(v@.len() == 10); }
    v.push(allow_syscall(crate::sysnum::SYS_CONNECT));
    v.push(allow_syscall(crate::sysnum::SYS_COPY_FILE_RANGE));
    v.push(allow_syscall(crate::sysnum::SYS_DUP));
    v.push(allow_syscall(crate::sysnum::SYS_DUP2));
    v.push(allow_syscall(crate::sysnum::SYS_DUP3));
    v.push(allow_syscall(crate::sysnum::SYS_EPOLL_CREATE1));
    v.push(allow_syscall(crate::sysnum::SYS_EPOLL_CTL));
    v.push(allow_syscall(crate::sysnum::SYS_EPOLL_PWAIT));
    v.push(allow_syscall(crate::sysnum::SYS_EVENTFD2));
    v.push(allow_syscall(crate::sysnum::SYS_EPOLL_WAIT));
    proof { assert(v@.len() == 20); }
    v.push(allow_syscall(crate::sysnum::SYS_EXECVE));
    v.push(allow_syscall(crate::sysnum::SYS_EXIT));
    v.push(allow_syscall(crate::sysnum::SYS_EXIT_GROUP));
    v.push(allow_syscall(crate::sysnum::SYS_FALLOCATE));
    v.push(allow_syscall(crate::sysnum::SYS_FCHDIR));
    v.push(allow_syscall(crate::sysnum::SYS_FCHMOD));
    v.push(allow_syscall(crate::sysnum::SYS_FCHMODAT));
    v.push(allow_syscall(crate::sysnum::SYS_FCHOWN));
    v.push(allow_syscall(crate::sysnum::SYS_FCHOWNAT));
    v.push(allow_syscall(crate::sysnum::SYS_FCNTL));
    proof { assert(v@.len() == 30); }
    v.push(allow_syscall(crate::sysnum::SYS_FORK));
    v.push(allow_syscall(crate::sysnum::SYS_FSTAT));
    v.push(allow_syscall(crate::sysnum::SYS_FTRUNCATE));
    v.push(allow_syscall(crate::sysnum::SYS_FUTEX));
    v.push(allow_syscall(crate::sysnum::SYS_GETCWD));
    v.push(allow_syscall(crate::sysnum::SYS_GETDENTS));
    v.push(allow_syscall(crate::sysnum::SYS_GETDENTS64));
    v.push(allow_syscall(crate::sysnum::SYS_GETEGID));
    v.push(allow_syscall(crate::sysnum::SYS_GETEUID));
    v.push(allow_syscall(crate::sysnum::SYS_GETGID));
    proof { assert(v@.len() == 40); }
    v.push(allow_syscall(crate::sysnum::SYS_GETPID));
    v.push(allow_syscall(crate::sysnum::SYS_GETSOCKNAME));
    v.push(allow_syscall(crate::sysnum::SYS_GETSOCKOPT));
    v.push(allow_syscall(crate::sysnum::SYS_GETTID));
    v.push(allow_syscall(crate::sysnum::SYS_GETRANDOM));
    v.push(allow_syscall(crate::sysnum::SYS_GETRLIMIT));
    v.push(allow_syscall(crate::sysnum::SYS_GETRUSAGE));
    v.push(allow_syscall(crate::sysnum::SYS_GETUID));
    v.push(allow_syscall(crate::sysnum::SYS_IOCTL));
    v.push(allow_syscall(crate::sysnum::SYS_LSEEK));
    proof { assert(v@.len() == 50); }
    v.push(allow_syscall(crate::sysnum::SYS_LSTAT));
    v.push(allow_syscall(crate::sysnum::SYS_MADVISE));
    v.push(allow_syscall(crate::sysnum::SYS_MKDIR));
    v.push(allow_syscall(crate::sysnum::SYS_MKDIRAT));
    v.push(allow_syscall(crate::sysnum::SYS_MLOCK));
    v.push(allow_syscall(crate::sysnum::SYS_MPROTECT));
    v.push(allow_syscall(crate::sysnum::SYS_NANOSLEEP));
    v.push(allow_syscall(crate::sysnum::SYS_NEWFSTATAT));
    v.push(allow_syscall(crate::sysnum::SYS_OPEN));
    v.push(allow_syscall(crate::sysnum::SYS_OPENAT));
    proof { assert(v@.len() == 60); }
    v.push(allow_syscall(crate::sysnum::SYS_PIPE2));
    v.push(allow_syscall(crate::sysnum::SYS_POLL));
    v.push(allow_syscall(crate::sysnum::SYS_PRCTL));
    v.push(allow_syscall(crate::sysnum::SYS_PREAD64));
    v.push(allow_syscall(crate::sysnum::SYS_PRLIMIT64));
    v.push(allow_syscall(crate::sysnum::SYS_PWRITE64));
    v.push(allow_syscall(crate::sysnum::SYS_PWRITEV));
    v.push(allow_syscall(crate::sysnum::SYS_READ));
    v.push(allow_syscall(crate::sysnum::SYS_READLINK));
    v.push(allow_syscall(crate::sysnum::SYS_READLINKAT));
    proof { assert(v@.len() == 70); }
    v.push(allow_syscall(crate::sysnum::SYS_RENAME));
    v.push(allow_syscall(crate::sysnum::SYS_RENAMEAT));
    v.push(allow_syscall(crate::sysnum::SYS_RMDIR));
    v.push(allow_syscall(crate::sysnum::SYS_RT_SIGACTION));
    v.push(allow_syscall(crate::sysnum::SYS_RT_SIGPROCMASK));
    v.push(allow_syscall(crate::sysnum::SYS_RT_SIGRETURN));
    v.push(allow_syscall(crate::sysnum::SYS_SCHED_GETAFFINITY));
    v.push(allow_syscall(crate::sysnum::SYS_SCHED_YIELD));
    v.push(allow_syscall(crate::sysnum::SYS_SELECT));
    v.push(allow_syscall(crate::sysnum::SYS_SET_ROBUST_LIST));
    proof { assert(v@.len() == 80); }
    v.push(allow_syscall(crate::sysnum::SYS_SET_TID_ADDRESS));
    v.push(allow_syscall(crate::sysnum::SYS_SETSOCKOPT));
    v.push(allow_syscall(crate::sysnum::SYS_SIGALTSTACK));
    v.push(allow_syscall(crate::sysnum::SYS_SOCKET));
    v.push(allow_syscall(crate::sysnum::SYS_SOCKETPAIR));
    v.push(allow_syscall(crate::sysnum::SYS_STAT));
    v.push(allow_syscall(crate::sysnum::SYS_STATX));
    v.push(allow_syscall(crate::sysnum::SYS_SYSINFO));
    v.push(allow_syscall(crate::sysnum::SYS_TGKILL));
    v.push(allow_syscall(crate::sysnum::SYS_UNLINKAT));
    proof { assert(v@.len() == 90); }
    v.push(allow_syscall(crate::sysnum::SYS_UMASK));
    v.push(allow_syscall(crate::sysnum::SYS_UNAME));
    v.push(allow_syscall(crate::sysnum::SYS_UNLINK));
    v.push(allow_syscall(crate::sysnum::SYS_UTIMENSAT));
    v.push(allow_syscall(crate::sysnum::SYS_VFORK));
    v.push(allow_syscall(crate::sysnum::SYS_WAIT4));
    v.push(allow_syscall(crate::sysnum::SYS_WAITID));
    v.push(allow_syscall(crate::sysnum::SYS_WRITE));
    v.push(allow_syscall(crate::sysnum::SYS_WRITEV));
    proof {
        assert(allowed_syscalls().len() == 99);
        assert(v@.len() == 99);
    }
    v
}

/// A single rule set that traces the syscall, tagging the event so the
/// supervisor can read the process's memory use at each call.
pub fn trace_syscall(syscall_number: i64) -> (r: SyscallRuleSet)
    ensures
        r.0 == syscall_number,
        r.1@.len() == 1,
        r.1@[0].conditions@.len() == 0,
        r.1@[0].action == SeccompAction::Trace(42),
{
    (syscall_number, vec![SeccompRule::new(Vec::new(), SeccompAction::Trace(42))])
}

} // verus!
