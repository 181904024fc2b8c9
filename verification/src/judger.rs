//! The decision core of the compile and run steps.  The surrounding I/O —
//! writing the source file, launching the sandbox helper, reading output
//! files — happens outside the library; these functions turn what came back
//! into the verdict the spec prescribes, in the prescribed order.

use vstd::prelude::*;

verus! {

use crate::config::{
    RESULT_FILENAME,
    SPJ_ANSWER_FILENAME,
    SPJ_FILENAME,
    SPJ_INPUT_FILENAME,
    SPJ_RESULT_FILENAME,
    SPJ_STDERR_FILENAME,
    SPJ_STDOUT_FILENAME,
    STDERR_FILENAME,
    STDOUT_FILENAME,
};
use crate::error::Error;
use crate::result::{
    accepted,
    compile_failure,
    compile_success,
    is_result,
    memory_limit_exceeded,
    runtime_error,
    spec_compare,
    spj_result,
    standard_result,
    time_limit_exceeded,
    wrong_answer,
    JudgeResponse,
    JudgeResultEnum,
};
use crate::exec_args::spec_tokens;
use crate::sandbox::{int_to_string, spec_i64_string, str_eq, ProcessExitStatus, Sandbox};

/// CPU budget of a compile step, in milliseconds.
pub const COMPILE_TIME_LIMIT_MS: i32 = 8000;

/// Memory cap of a compile step and of a special judge, in kilobytes.
pub const AUX_MEMORY_LIMIT_KB: i32 = 1048576;

/// File-size cap of every sandboxed step, in kilobytes.
pub const FILE_SIZE_LIMIT_KB: i32 = 52428800;

/// Process-count cap of a compile step.
pub const COMPILE_PIDS_LIMIT: i32 = 64;

/// Process-count cap of a run step.
pub const RUN_PIDS_LIMIT: i32 = 32;

/// Process-count cap of a special-judge step.
pub const SPJ_PIDS_LIMIT: i32 = 8;

/// CPU budget of a special-judge step, in milliseconds.
pub const SPJ_TIME_LIMIT_MS: i32 = 5000;

/// Wire code of the standard, output-comparing judge type.
pub const JUDGE_TYPE_STANDARD: i32 = 0;

/// Wire code of the special-judge type.
pub const JUDGE_TYPE_SPECIAL: i32 = 1;

/// `a`, a path separator, then `b`.
pub open spec fn spec_path_join(a: Seq<char>, b: Seq<char>) -> Seq<char> {
    a + seq!['/'] + b
}

/// Joins a directory and a file name with a slash.
pub fn path_join(a: &str, b: &str) -> (r: String)
    ensures
        r@ == spec_path_join(a@, b@),
{
    let mut r = a.to_owned();
    r.append("/");
    r.append(b);
    proof {
        reveal_strlit("/");
        assert(a@ + "/"@ + b@ =~= spec_path_join(a@, b@));
    }
    r
}

/// The address-space cap used when running a program, in kilobytes:
/// virtual-machine languages reserve enormous virtual memory, so they get a
/// fixed large cap while the real limit is enforced by the control group.
pub open spec fn spec_run_memory_limit(language: Seq<char>, memory_limit: i32) -> i32 {
    if language == "Java"@ || language == "Go"@ || language == "JavaScript"@ || language
        == "TypeScript"@ || language == "CSharp"@ {
        1048576
    } else {
        memory_limit
    }
}

/// Picks the memory limit handed to the sandbox for a run step.
pub fn run_memory_limit(language: &str, memory_limit: i32) -> (r: i32)
    ensures
        r == spec_run_memory_limit(language@, memory_limit),
{
    if str_eq(language, "Java") || str_eq(language, "Go") || str_eq(language, "JavaScript")
        || str_eq(language, "TypeScript") || str_eq(language, "CSharp") {
        1048576
    } else {
        memory_limit
    }
}

/// A compiler's standard output and standard error, merged into one message:
/// whichever is non-empty, or both joined by a line feed.
pub open spec fn spec_merge_messages(outmsg: Seq<char>, errmsg: Seq<char>) -> Seq<char> {
    if outmsg.len() == 0 {
        errmsg
    } else if errmsg.len() == 0 {
        outmsg
    } else {
        outmsg + seq!['\n'] + errmsg
    }
}

/// Merges the two captured compiler streams as `spec_merge_messages` says.
pub fn merge_messages(outmsg: &str, errmsg: &str) -> (r: String)
    ensures
        r@ == spec_merge_messages(outmsg@, errmsg@),
{
    if outmsg.is_empty() {
        errmsg.to_owned()
    } else if errmsg.is_empty() {
        outmsg.to_owned()
    } else {
        let mut r = outmsg.to_owned();
        r.append("\n");
        r.append(errmsg);
        proof {
            reveal_strlit("\n");
            assert(outmsg@ + "\n"@ + errmsg@ =~= outmsg@ + seq!['\n'] + errmsg@);
        }
        r
    }
}

/// The verdict of a finished compile step: a non-zero exit code or a
/// signal is a compile error carrying the merged compiler output, and
/// everything else is a compile success.
pub fn compile_verdict(status: &ProcessExitStatus, outmsg: &str, errmsg: &str) -> (r:
    JudgeResponse)
    ensures
        status.exit_code != 0 || status.signal != 0 ==> is_result(
            r,
            status.time_used,
            status.memory_used,
            JudgeResultEnum::CompileError,
            spec_merge_messages(outmsg@, errmsg@),
            Seq::empty(),
        ),
        status.exit_code == 0 && status.signal == 0 ==> is_result(
            r,
            status.time_used,
            status.memory_used,
            JudgeResultEnum::CompileSuccess,
            Seq::empty(),
            Seq::empty(),
        ),
{
    if status.exit_code != 0 || status.signal != 0 {
        let msg = merge_messages(outmsg, errmsg);
        compile_failure(status.time_used, status.memory_used, msg.as_str())
    } else {
        compile_success(status.time_used, status.memory_used)
    }
}

/// The message attached when a program dies on a signal.
pub open spec fn spec_signal_message(signal: i64) -> Seq<char> {
    "Program was interrupted by signal: `"@ + spec_i64_string(signal as int) + "`"@
}

/// The message attached when a program returns a non-zero exit code.
pub open spec fn spec_exit_code_message(exit_code: i64) -> Seq<char> {
    "Exceptional program return code: `"@ + spec_i64_string(exit_code as int) + "`"@
}

/// Applies the early verdicts of a run step in their fixed order: time
/// limit first, then memory limit, then a killing signal, then a non-zero
/// exit code.  Nothing is returned when the run is clean and the output
/// comparison must decide.
pub fn run_verdict(status: &ProcessExitStatus, time_limit: i32, memory_limit: i32) -> (r: Option<
    JudgeResponse,
>)
    ensures
        ({
            if status.time_used > time_limit as i64 {
                r matches Some(resp) && is_result(
                    resp,
                    status.time_used,
                    status.memory_used,
                    JudgeResultEnum::TimeLimitExceeded,
                    Seq::empty(),
                    Seq::empty(),
                )
            } else if status.memory_used > memory_limit as i64 {
                r matches Some(resp) && is_result(
                    resp,
                    status.time_used,
                    status.memory_used,
                    JudgeResultEnum::MemoryLimitExceeded,
                    Seq::empty(),
                    Seq::empty(),
                )
            } else if status.signal != 0 {
                r matches Some(resp) && is_result(
                    resp,
                    status.time_used,
                    status.memory_used,
                    JudgeResultEnum::RuntimeError,
                    spec_signal_message(status.signal),
                    Seq::empty(),
                )
            } else if status.exit_code != 0 {
                r matches Some(resp) && is_result(
                    resp,
                    status.time_used,
                    status.memory_used,
                    JudgeResultEnum::RuntimeError,
                    spec_exit_code_message(status.exit_code),
                    Seq::empty(),
                )
            } else {
                r is None
            }
        }),
{
    if status.time_used > time_limit as i64 {
        Some(time_limit_exceeded(status.time_used, status.memory_used))
    } else if status.memory_used > memory_limit as i64 {
        Some(memory_limit_exceeded(status.time_used, status.memory_used))
    } else if status.signal != 0 {
        let mut msg = "Program was interrupted by signal: `".to_owned();
        msg.append(int_to_string(status.signal).as_str());
        msg.append("`");
        Some(runtime_error(status.time_used, status.memory_used, msg.as_str()))
    } else if status.exit_code != 0 {
        let mut msg = "Exceptional program return code: `".to_owned();
        msg.append(int_to_string(status.exit_code).as_str());
        msg.append("`");
        Some(runtime_error(status.time_used, status.memory_used, msg.as_str()))
    } else {
        None
    }
}

/// Compares the captured output against the expected answer and reports
/// Accepted or WrongAnswer with the run's measured resources.
pub fn standard_verdict(status: &ProcessExitStatus, out: &[u8], ans: &[u8]) -> (r: Result<
    JudgeResponse,
    Error,
>)
    ensures
        r matches Ok(resp) && is_result(
            resp,
            status.time_used,
            status.memory_used,
            spec_compare(out@, ans@),
            Seq::empty(),
            Seq::empty(),
        ),
{
    let cmp = standard_result(out, ans)?;
    if cmp == JudgeResultEnum::Accepted {
        Ok(accepted(status.time_used, status.memory_used))
    } else {
        Ok(wrong_answer(status.time_used, status.memory_used))
    }
}

/// Translates a finished special judge: exit code zero accepts, anything
/// else is a wrong answer; the user program's resources are reported and
/// the special judge's captured streams are attached.
pub fn spj_verdict(
    status: &ProcessExitStatus,
    spj_status: &ProcessExitStatus,
    outmsg: &str,
    errmsg: &str,
) -> (r: JudgeResponse)
    ensures
        is_result(
            r,
            status.time_used,
            status.memory_used,
            if spj_status.exit_code == 0 {
                JudgeResultEnum::Accepted
            } else {
                JudgeResultEnum::WrongAnswer
            },
            errmsg@,
            outmsg@,
        ),
{
    if spj_status.exit_code == 0 {
        spj_result(
            status.time_used,
            status.memory_used,
            JudgeResultEnum::Accepted,
            outmsg,
            errmsg,
        )
    } else {
        spj_result(
            status.time_used,
            status.memory_used,
            JudgeResultEnum::WrongAnswer,
            outmsg,
            errmsg,
        )
    }
}

/// The command line of a special-judge step: the copied binary with the
/// input, the user output and the expected answer as its arguments.
pub fn spj_command() -> (r: String)
    ensures
        r@ == SPJ_FILENAME@ + seq![' '] + SPJ_INPUT_FILENAME@ + seq![' '] + STDOUT_FILENAME@
            + seq![' '] + SPJ_ANSWER_FILENAME@,
{
    let mut r = SPJ_FILENAME.to_owned();
    r.append(" ");
    r.append(SPJ_INPUT_FILENAME);
    r.append(" ");
    r.append(STDOUT_FILENAME);
    r.append(" ");
    r.append(SPJ_ANSWER_FILENAME);
    proof {
        reveal_strlit(" ");
        assert(SPJ_FILENAME@ + " "@ + SPJ_INPUT_FILENAME@ + " "@ + STDOUT_FILENAME@ + " "@
            + SPJ_ANSWER_FILENAME@ =~= SPJ_FILENAME@ + seq![' '] + SPJ_INPUT_FILENAME@ + seq![' ']
            + STDOUT_FILENAME@ + seq![' '] + SPJ_ANSWER_FILENAME@);
    }
    r
}

/// Assembles the sandbox for a compile step: the language's compile command
/// under the fixed compile budgets, with no standard input.
pub fn compile_sandbox(compile_cmd: &String, workdir: &String, rootfs: &String, cgroup: i32) -> (s:
    Sandbox)
    ensures
        s.inner_args@.map_values(|t: String| t@) == spec_tokens(compile_cmd@),
        s.workdir@ == workdir@,
        s.rootfs@ == rootfs@,
        s.result@ == spec_path_join(workdir@, RESULT_FILENAME@),
        s.stdin@ == "/STDIN/"@,
        s.stdout@ == spec_path_join(workdir@, STDOUT_FILENAME@),
        s.stderr@ == spec_path_join(workdir@, STDERR_FILENAME@),
        s.time_limit == COMPILE_TIME_LIMIT_MS,
        s.memory_limit == AUX_MEMORY_LIMIT_KB,
        s.file_size_limit == FILE_SIZE_LIMIT_KB,
        s.cgroup == cgroup,
        s.pids == COMPILE_PIDS_LIMIT,
{
    Sandbox::new(
        compile_cmd,
        workdir.clone(),
        rootfs.clone(),
        path_join(workdir.as_str(), RESULT_FILENAME),
        "/STDIN/".to_owned(),
        path_join(workdir.as_str(), STDOUT_FILENAME),
        path_join(workdir.as_str(), STDERR_FILENAME),
        COMPILE_TIME_LIMIT_MS,
        AUX_MEMORY_LIMIT_KB,
        FILE_SIZE_LIMIT_KB,
        cgroup,
        COMPILE_PIDS_LIMIT,
    )
}

/// Assembles the sandbox for a run step: the language's run command under
/// the submission's limits, reading the test input on standard input.
pub fn judge_sandbox(
    run_cmd: &String,
    workdir: &String,
    rootfs: &String,
    stdin_path: &String,
    time_limit: i32,
    memory_limit: i32,
    cgroup: i32,
) -> (s: Sandbox)
    ensures
        s.inner_args@.map_values(|t: String| t@) == spec_tokens(run_cmd@),
        s.workdir@ == workdir@,
        s.rootfs@ == rootfs@,
        s.result@ == spec_path_join(workdir@, RESULT_FILENAME@),
        s.stdin@ == stdin_path@,
        s.stdout@ == spec_path_join(workdir@, STDOUT_FILENAME@),
        s.stderr@ == spec_path_join(workdir@, STDERR_FILENAME@),
        s.time_limit == time_limit,
        s.memory_limit == memory_limit,
        s.file_size_limit == FILE_SIZE_LIMIT_KB,
        s.cgroup == cgroup,
        s.pids == RUN_PIDS_LIMIT,
{
    Sandbox::new(
        run_cmd,
        workdir.clone(),
        rootfs.clone(),
        path_join(workdir.as_str(), RESULT_FILENAME),
        stdin_path.clone(),
        path_join(workdir.as_str(), STDOUT_FILENAME),
        path_join(workdir.as_str(), STDERR_FILENAME),
        time_limit,
        memory_limit,
        FILE_SIZE_LIMIT_KB,
        cgroup,
        RUN_PIDS_LIMIT,
    )
}

/// Assembles the sandbox for a special-judge step, under the fixed
/// special-judge budgets and its own result and stream files.
pub fn spj_sandbox(spj_cmd: &String, workdir: &String, rootfs: &String, cgroup: i32) -> (s:
    Sandbox)
    ensures
        s.inner_args@.map_values(|t: String| t@) == spec_tokens(spj_cmd@),
        s.workdir@ == workdir@,
        s.rootfs@ == rootfs@,
        s.result@ == spec_path_join(workdir@, SPJ_RESULT_FILENAME@),
        s.stdin@ == "/STDIN/"@,
        s.stdout@ == spec_path_join(workdir@, SPJ_STDOUT_FILENAME@),
        s.stderr@ == spec_path_join(workdir@, SPJ_STDERR_FILENAME@),
        s.time_limit == SPJ_TIME_LIMIT_MS,
        s.memory_limit == AUX_MEMORY_LIMIT_KB,
        s.file_size_limit == FILE_SIZE_LIMIT_KB,
        s.cgroup == cgroup,
        s.pids == SPJ_PIDS_LIMIT,
{
    Sandbox::new(
        spj_cmd,
        workdir.clone(),
        rootfs.clone(),
        path_join(workdir.as_str(), SPJ_RESULT_FILENAME),
        "/STDIN/".to_owned(),
        path_join(workdir.as_str(), SPJ_STDOUT_FILENAME),
        path_join(workdir.as_str(), SPJ_STDERR_FILENAME),
        SPJ_TIME_LIMIT_MS,
        AUX_MEMORY_LIMIT_KB,
        FILE_SIZE_LIMIT_KB,
        cgroup,
        SPJ_PIDS_LIMIT,
    )
}

/// A special judge needs a named binary: an empty `spj_file` field is
/// rejected before anything is copied or run.
pub fn spj_file_check(spj_file: &str) -> (r: Result<(), Error>)
    ensures
        spj_file@.len() > 0 ==> r is Ok,
        spj_file@.len() == 0 ==> (r matches Err(Error::SystemError(m)) && m@
            == "field spj_file is required!"@),
{
    if spj_file.is_empty() {
        Err(Error::SystemError("field spj_file is required!".to_owned()))
    } else {
        Ok(())
    }
}

} // verus!
