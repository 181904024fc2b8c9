//! Core of an online-judge execution service: output comparison, verdict
//! construction, sandbox configuration, seccomp policy construction and the
//! per-submission judging state machine, with machine-checked contracts.

pub mod allow;
pub mod cgroup;
pub mod config;
pub mod error;
pub mod exec_args;
pub mod judger;
pub mod process;
pub mod result;
pub mod sandbox;
pub mod seccomp;
pub mod service;
pub mod sysnum;

use vstd::prelude::*;

verus! {

/// Whitespace bytes that the output comparison ignores at line ends.
pub open spec fn is_ws(b: u8) -> bool {
    b == 32 || b == 9 || b == 13 || b == 10
}

} // verus!
