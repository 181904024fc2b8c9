//! Linux x86_64 syscall numbers, as the kernel ABI fixes them: the
//! vocabulary of the judge's syscall filters.

use vstd::prelude::*;

verus! {

pub const SYS_ACCESS: i64 = 21;

pub const SYS_ARCH_PRCTL: i64 = 158;

pub const SYS_CHDIR: i64 = 80;

pub const SYS_CHMOD: i64 = 90;

pub const SYS_CHOWN: i64 = 92;

pub const SYS_CLOCK_ADJTIME: i64 = 305;

pub const SYS_CLOCK_GETRES: i64 = 229;

pub const SYS_CLOCK_GETTIME: i64 = 228;

pub const SYS_CLONE: i64 = 56;

pub const SYS_CLOSE: i64 = 3;

pub const SYS_CONNECT: i64 = 42;

pub const SYS_COPY_FILE_RANGE: i64 = 326;

pub const SYS_DUP: i64 = 32;

pub const SYS_DUP2: i64 = 33;

pub const SYS_DUP3: i64 = 292;

pub const SYS_EPOLL_CREATE1: i64 = 291;

pub const SYS_EPOLL_CTL: i64 = 233;

pub const SYS_EPOLL_PWAIT: i64 = 281;

pub const SYS_EVENTFD2: i64 = 290;

pub const SYS_EPOLL_WAIT: i64 = 232;

pub const SYS_EXECVE: i64 = 59;

pub const SYS_EXIT: i64 = 60;

pub const SYS_EXIT_GROUP: i64 = 231;

pub const SYS_FALLOCATE: i64 = 285;

pub const SYS_FCHDIR: i64 = 81;

pub const SYS_FCHMOD: i64 = 91;

pub const SYS_FCHMODAT: i64 = 268;

pub const SYS_FCHOWN: i64 = 93;

pub const SYS_FCHOWNAT: i64 = 260;

pub const SYS_FCNTL: i64 = 72;

pub const SYS_FORK: i64 = 57;

pub const SYS_FSTAT: i64 = 5;

pub const SYS_FTRUNCATE: i64 = 77;

pub const SYS_FUTEX: i64 = 202;

pub const SYS_GETCWD: i64 = 79;

pub const SYS_GETDENTS: i64 = 78;

pub const SYS_GETDENTS64: i64 = 217;

pub const SYS_GETEGID: i64 = 108;

pub const SYS_GETEUID: i64 = 107;

pub const SYS_GETGID: i64 = 104;

pub const SYS_GETPID: i64 = 39;

pub const SYS_GETSOCKNAME: i64 = 51;

pub const SYS_GETSOCKOPT: i64 = 55;

pub const SYS_GETTID: i64 = 186;

pub const SYS_GETRANDOM: i64 = 318;

pub const SYS_GETRLIMIT: i64 = 97;

pub const SYS_GETRUSAGE: i64 = 98;

pub const SYS_GETUID: i64 = 102;

pub const SYS_IOCTL: i64 = 16;

pub const SYS_LSEEK: i64 = 8;

pub const SYS_LSTAT: i64 = 6;

pub const SYS_MADVISE: i64 = 28;

pub const SYS_MKDIR: i64 = 83;

pub const SYS_MKDIRAT: i64 = 258;

pub const SYS_MLOCK: i64 = 149;

pub const SYS_MPROTECT: i64 = 10;

pub const SYS_NANOSLEEP: i64 = 35;

pub const SYS_NEWFSTATAT: i64 = 262;

pub const SYS_OPEN: i64 = 2;

pub const SYS_OPENAT: i64 = 257;

pub const SYS_PIPE2: i64 = 293;

pub const SYS_POLL: i64 = 7;

pub const SYS_PRCTL: i64 = 157;

pub const SYS_PREAD64: i64 = 17;

pub const SYS_PRLIMIT64: i64 = 302;

pub const SYS_PWRITE64: i64 = 18;

pub const SYS_PWRITEV: i64 = 296;

pub const SYS_READ: i64 = 0;

pub const SYS_READLINK: i64 = 89;

pub const SYS_READLINKAT: i64 = 267;

pub const SYS_RENAME: i64 = 82;

pub const SYS_RENAMEAT: i64 = 264;

pub const SYS_RMDIR: i64 = 84;

pub const SYS_RT_SIGACTION: i64 = 13;

pub const SYS_RT_SIGPROCMASK: i64 = 14;

pub const SYS_RT_SIGRETURN: i64 = 15;

pub const SYS_SCHED_GETAFFINITY: i64 = 204;

pub const SYS_SCHED_YIELD: i64 = 24;

pub const SYS_SELECT: i64 = 23;

pub const SYS_SET_ROBUST_LIST: i64 = 273;

pub const SYS_SET_TID_ADDRESS: i64 = 218;

pub const SYS_SETSOCKOPT: i64 = 54;

pub const SYS_SIGALTSTACK: i64 = 131;

pub const SYS_SOCKET: i64 = 41;

pub const SYS_SOCKETPAIR: i64 = 53;

pub const SYS_STAT: i64 = 4;

pub const SYS_STATX: i64 = 332;

pub const SYS_SYSINFO: i64 = 99;

pub const SYS_TGKILL: i64 = 234;

pub const SYS_UNLINKAT: i64 = 263;

pub const SYS_UMASK: i64 = 95;

pub const SYS_UNAME: i64 = 63;

pub const SYS_UNLINK: i64 = 87;

pub const SYS_UTIMENSAT: i64 = 280;

pub const SYS_VFORK: i64 = 58;

pub const SYS_WAIT4: i64 = 61;

pub const SYS_WAITID: i64 = 247;

pub const SYS_WRITE: i64 = 1;

pub const SYS_WRITEV: i64 = 20;

pub const SYS_ACCT: i64 = 163;

pub const SYS_ADD_KEY: i64 = 248;

pub const SYS_BPF: i64 = 321;

pub const SYS_CLOCK_SETTIME: i64 = 227;

pub const SYS_CREATE_MODULE: i64 = 174;

pub const SYS_DELETE_MODULE: i64 = 176;

pub const SYS_FINIT_MODULE: i64 = 313;

pub const SYS_GET_KERNEL_SYMS: i64 = 177;

pub const SYS_GET_MEMPOLICY: i64 = 239;

pub const SYS_INIT_MODULE: i64 = 175;

pub const SYS_IOPERM: i64 = 173;

pub const SYS_IOPL: i64 = 172;

pub const SYS_KCMP: i64 = 312;

pub const SYS_KEXEC_FILE_LOAD: i64 = 320;

pub const SYS_KEXEC_LOAD: i64 = 246;

pub const SYS_KEYCTL: i64 = 250;

pub const SYS_LOOKUP_DCOOKIE: i64 = 212;

pub const SYS_MBIND: i64 = 237;

pub const SYS_MOUNT: i64 = 165;

pub const SYS_MOVE_PAGES: i64 = 279;

pub const SYS_NAME_TO_HANDLE_AT: i64 = 303;

pub const SYS_NFSSERVCTL: i64 = 180;

pub const SYS_OPEN_BY_HANDLE_AT: i64 = 304;

pub const SYS_PERF_EVENT_OPEN: i64 = 298;

pub const SYS_PERSONALITY: i64 = 135;

pub const SYS_PIVOT_ROOT: i64 = 155;

pub const SYS_PROCESS_VM_READV: i64 = 310;

pub const SYS_PROCESS_VM_WRITEV: i64 = 311;

pub const SYS_PTRACE: i64 = 101;

pub const SYS_QUERY_MODULE: i64 = 178;

pub const SYS_QUOTACTL: i64 = 179;

pub const SYS_REBOOT: i64 = 169;

pub const SYS_REQUEST_KEY: i64 = 249;

pub const SYS_SET_MEMPOLICY: i64 = 238;

pub const SYS_SETNS: i64 = 308;

pub const SYS_SETTIMEOFDAY: i64 = 164;

pub const SYS_SWAPON: i64 = 167;

pub const SYS_SWAPOFF: i64 = 168;

pub const SYS_SYSFS: i64 = 139;

pub const SYS_SYSCTL: i64 = 156;

pub const SYS_UMOUNT2: i64 = 166;

pub const SYS_UNSHARE: i64 = 272;

pub const SYS_USELIB: i64 = 134;

pub const SYS_USERFAULTFD: i64 = 323;

pub const SYS_USTAT: i64 = 136;

pub const SYS_BRK: i64 = 12;

pub const SYS_MMAP: i64 = 9;

pub const SYS_MUNMAP: i64 = 11;

pub const SYS_MREMAP: i64 = 25;

} // verus!