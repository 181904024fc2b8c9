use river::cgroup::{max_usage_kb, memory_limit_bytes, reported_memory_kb};
use river::config::{Config, LanguageConf};
use river::error::Error;
use river::judger::{
    compile_verdict, merge_messages, path_join, run_memory_limit, run_verdict, spj_command,
    spj_file_check, spj_verdict, standard_verdict,
};
use river::process::{
    cpu_rlimit_seconds, itimer_seconds, judge_system_error, memory_rlimit_bytes, runner_status,
    watchdog_seconds,
};
use river::result::{
    accepted, compile_failure, pending, running, system_error, JudgeResponse, JudgeResultEnum,
    JudgeStatus, State,
};
use river::sandbox::ProcessExitStatus;
use river::service::{CpuGate, Data, JudgeRequest, Plan, Session};

fn verdict_of(r: &JudgeResponse) -> (i64, i64, JudgeResultEnum, String, String) {
    match &r.state {
        Some(State::Result(jr)) => (
            jr.time_used,
            jr.memory_used,
            jr.result,
            jr.errmsg.clone(),
            jr.outmsg.clone(),
        ),
        _ => panic!("expected a result event"),
    }
}

fn clean_status() -> ProcessExitStatus {
    ProcessExitStatus { time_used: 10, memory_used: 100, exit_code: 0, status: 0, signal: 0 }
}

#[test]
fn run_verdicts_come_in_the_fixed_order() {
    let mut st = clean_status();
    st.time_used = 1500;
    st.memory_used = 999999;
    st.signal = 9;
    st.exit_code = 7;
    // Time limit wins over everything else.
    let v = run_verdict(&st, 1000, 65536).unwrap();
    assert_eq!(verdict_of(&v).2, JudgeResultEnum::TimeLimitExceeded);
    // Then memory.
    st.time_used = 500;
    let v = run_verdict(&st, 1000, 65536).unwrap();
    assert_eq!(verdict_of(&v).2, JudgeResultEnum::MemoryLimitExceeded);
    // Then the killing signal.
    st.memory_used = 100;
    let v = run_verdict(&st, 1000, 65536).unwrap();
    let (_, _, code, errmsg, _) = verdict_of(&v);
    assert_eq!(code, JudgeResultEnum::RuntimeError);
    assert_eq!(errmsg, "Program was interrupted by signal: `9`");
    // Then the exit code.
    st.signal = 0;
    let v = run_verdict(&st, 1000, 65536).unwrap();
    let (_, _, code, errmsg, _) = verdict_of(&v);
    assert_eq!(code, JudgeResultEnum::RuntimeError);
    assert_eq!(errmsg, "Exceptional program return code: `7`");
    // A clean run decides nothing here.
    st.exit_code = 0;
    assert!(run_verdict(&st, 1000, 65536).is_none());
}

#[test]
fn standard_verdict_reports_the_measured_resources() {
    let st = clean_status();
    let v = standard_verdict(&st, b"Hello\n", b"Hello").unwrap();
    assert_eq!(verdict_of(&v), (10, 100, JudgeResultEnum::Accepted, String::new(), String::new()));
    let v = standard_verdict(&st, b"Hello\n", b"World").unwrap();
    assert_eq!(verdict_of(&v).2, JudgeResultEnum::WrongAnswer);
}

#[test]
fn compile_verdict_merges_the_compiler_streams() {
    let mut st = clean_status();
    st.exit_code = 1;
    assert_eq!(verdict_of(&compile_verdict(&st, "out", "err")).3, "out\nerr");
    assert_eq!(verdict_of(&compile_verdict(&st, "", "err")).3, "err");
    assert_eq!(verdict_of(&compile_verdict(&st, "out", "")).3, "out");
    assert_eq!(verdict_of(&compile_verdict(&st, "out", "err")).2, JudgeResultEnum::CompileError);
    st.exit_code = 0;
    st.signal = 11;
    assert_eq!(verdict_of(&compile_verdict(&st, "", "")).2, JudgeResultEnum::CompileError);
    st.signal = 0;
    assert_eq!(verdict_of(&compile_verdict(&st, "", "")).2, JudgeResultEnum::CompileSuccess);
    assert_eq!(merge_messages("a", "b"), "a\nb");
}

#[test]
fn spj_verdict_translates_the_exit_code() {
    let st = clean_status();
    let mut spj = clean_status();
    spj.exit_code = 0;
    let v = spj_verdict(&st, &spj, "note", "warn");
    assert_eq!(verdict_of(&v), (
        10,
        100,
        JudgeResultEnum::Accepted,
        String::from("warn"),
        String::from("note"),
    ));
    spj.exit_code = 1;
    assert_eq!(verdict_of(&spj_verdict(&st, &spj, "", "")).2, JudgeResultEnum::WrongAnswer);
}

#[test]
fn spj_needs_a_named_binary() {
    assert!(spj_file_check("spj1").is_ok());
    match spj_file_check("") {
        Err(Error::SystemError(m)) => assert_eq!(m, "field spj_file is required!"),
        _ => panic!("expected SystemError"),
    }
    assert_eq!(spj_command(), "spj spj_input.txt stdout.txt spj_answer.txt");
}

#[test]
fn vm_languages_get_the_large_address_space_cap() {
    assert_eq!(run_memory_limit("Java", 65536), 1048576);
    assert_eq!(run_memory_limit("Go", 65536), 1048576);
    assert_eq!(run_memory_limit("CSharp", 65536), 1048576);
    assert_eq!(run_memory_limit("C", 65536), 65536);
    assert_eq!(path_join("/judge/ws", "stdout.txt"), "/judge/ws/stdout.txt");
}

#[test]
fn a_judge_request_before_a_compile_is_rejected_without_a_sandbox() {
    let session = Session::new();
    let req = JudgeRequest {
        data: Some(Data::JudgeData {
            in_file: String::from("data1.in"),
            out_file: String::from("data1.out"),
            spj_file: String::new(),
            time_limit: 1000,
            memory_limit: 65536,
            judge_type: 0,
        }),
    };
    match session.plan(&req) {
        Plan::Reject(Error::CustomError(m)) => assert_eq!(m, "not compiled"),
        Plan::Run { .. } => panic!("a sandbox run was planned before any compile"),
        _ => panic!("expected a rejection"),
    }
}

#[test]
fn a_stream_compiles_then_runs() {
    let mut session = Session::new();
    let compile_req = JudgeRequest {
        data: Some(Data::CompileData {
            language: String::from("C"),
            code: String::from("int main() { return 0; }"),
        }),
    };
    match session.plan(&compile_req) {
        Plan::Compile { language, .. } => assert_eq!(language, "C"),
        _ => panic!("expected a compile plan"),
    }
    // A failed compile does not unlock judging.
    let st = ProcessExitStatus { time_used: 1, memory_used: 1, exit_code: 1, status: 0, signal: 0 };
    session.record_compile(&String::from("C"), &compile_verdict(&st, "", "boom"));
    let judge_req = JudgeRequest {
        data: Some(Data::JudgeData {
            in_file: String::from("data1.in"),
            out_file: String::from("data1.out"),
            spj_file: String::new(),
            time_limit: 1000,
            memory_limit: 65536,
            judge_type: 0,
        }),
    };
    assert!(matches!(session.plan(&judge_req), Plan::Reject(_)));
    // A successful compile does.
    let ok = ProcessExitStatus { time_used: 1, memory_used: 1, exit_code: 0, status: 0, signal: 0 };
    session.record_compile(&String::from("C"), &compile_verdict(&ok, "", ""));
    match session.plan(&judge_req) {
        Plan::Run { in_file, time_limit, .. } => {
            assert_eq!(in_file, "data1.in");
            assert_eq!(time_limit, 1000);
        }
        _ => panic!("expected a run plan"),
    }
    // An empty request is a protocol error.
    match session.plan(&JudgeRequest { data: None }) {
        Plan::Reject(Error::CustomError(m)) => assert_eq!(m, "unrecognized request types"),
        _ => panic!("expected a rejection"),
    }
}

#[test]
fn the_cpu_gate_never_exceeds_its_capacity() {
    let mut gate = CpuGate::new(2);
    assert!(gate.try_acquire());
    assert!(gate.try_acquire());
    assert!(!gate.try_acquire());
    assert_eq!(gate.in_use, 2);
    gate.release();
    assert!(gate.try_acquire());
    assert!(!gate.try_acquire());
}

#[test]
fn language_lookup_finds_the_first_entry() {
    let config = Config {
        data_dir: String::from("/data"),
        judge_dir: String::from("/judge"),
        rootfs: String::from("/rootfs"),
        cgroup: true,
        languages: vec![
            (String::from("C"), LanguageConf {
                compile_cmd: String::from("gcc main.c -o a.out"),
                code_file: String::from("main.c"),
                run_cmd: String::from("./a.out"),
                version: String::from("11"),
            }),
            (String::from("Rust"), LanguageConf {
                compile_cmd: String::from("rustc main.rs"),
                code_file: String::from("main.rs"),
                run_cmd: String::from("./main"),
                version: String::from("1"),
            }),
        ],
    };
    assert_eq!(config.language("Rust").unwrap().code_file, "main.rs");
    assert_eq!(config.language("C").unwrap().run_cmd, "./a.out");
    assert!(config.language("Python").is_none());
}

#[test]
fn cgroup_policy_matches_the_documented_slack() {
    assert_eq!(memory_limit_bytes(65536), 65536 * 1536);
    assert_eq!(max_usage_kb(4096), 4);
    assert_eq!(reported_memory_kb(100, 200), 100);
    assert_eq!(reported_memory_kb(300, 200), 200);
    // The reported figure never exceeds 1.6 times the limit when the
    // control group confined the run.
    let limit_kb: i64 = 65536;
    let reported = reported_memory_kb(i64::MAX, max_usage_kb(memory_limit_bytes(65536)));
    assert!(5 * reported <= 8 * limit_kb);
}

#[test]
fn wait_status_decoding_follows_the_wait_macros() {
    // Exit code 7: status 0x0700.
    let st = runner_status(0x0700, 0, 0, 0, 0, 1234, 55);
    assert_eq!(st.exit_code, 7);
    assert_eq!(st.signal, 0);
    assert_eq!(st.memory_used, 1234);
    assert_eq!(st.real_time_used, 55);
    assert_eq!(st.cgroup_memory_used, -1);
    // Killed by signal 9.
    let st = runner_status(9, 0, 0, 0, 0, 0, 0);
    assert_eq!(st.exit_code, 0);
    assert_eq!(st.signal, 9);
    // Stopped by SIGSTOP (19): status 0x137f.
    let st = runner_status(0x137f, 0, 0, 0, 0, 0, 0);
    assert_eq!(st.signal, 19);
    // CPU time is the user plus system time in milliseconds.
    let st = runner_status(0, 1, 500_000, 2, 250_999, 0, 0);
    assert_eq!(st.time_used, 1000 + 500 + 2000 + 250);
}

#[test]
fn timing_budgets_follow_the_documented_formulas() {
    assert_eq!(watchdog_seconds(1000), 4);
    assert_eq!(watchdog_seconds(1500), 6);
    assert_eq!(watchdog_seconds(0), 2);
    assert_eq!(cpu_rlimit_seconds(1000), 2);
    assert_eq!(cpu_rlimit_seconds(999), 2);
    assert_eq!(cpu_rlimit_seconds(1001), 3);
    assert_eq!(itimer_seconds(1000), 6);
    assert_eq!(itimer_seconds(1500), 8);
    assert_eq!(memory_rlimit_bytes(65536), 65536 * 1024);
    let err = judge_system_error(String::from("wait4 failure!"));
    assert_eq!(err.signal, -1);
    assert_eq!(err.errmsg, "wait4 failure!");
}

#[test]
fn response_builders_fill_the_documented_fields() {
    assert!(matches!(pending().state, Some(State::Status(JudgeStatus::Pending))));
    assert!(matches!(running().state, Some(State::Status(JudgeStatus::Running))));
    assert_eq!(verdict_of(&accepted(3, 4)), (3, 4, JudgeResultEnum::Accepted, String::new(),
        String::new()));
    assert_eq!(
        verdict_of(&compile_failure(1, 2, "bad")).3,
        "bad"
    );
    let v = system_error(Error::SystemError(String::from("run sandbox error!")));
    let (t, m, code, errmsg, _) = verdict_of(&v);
    assert_eq!((t, m, code), (0, 0, JudgeResultEnum::SystemError));
    assert_eq!(errmsg, "System Error: `run sandbox error!`");
    assert_eq!(
        Error::LanguageNotFound(String::from("Befunge")).message(),
        "Language Not Found: `Befunge`"
    );
    assert_eq!(Error::StringSplitError.message(), "StringSplitError");
}

#[test]
fn case_listing_pairs_numbered_files_until_a_gap() {
    let files = vec![
        String::from("data2.out"),
        String::from("data1.in"),
        String::from("data1.out"),
        String::from("data2.in"),
        String::from("data4.in"),
        String::from("data4.out"),
        String::from("notes.txt"),
    ];
    let cases = river::service::list_cases(&files);
    assert_eq!(cases, vec![
        (String::from("data1.in"), String::from("data1.out")),
        (String::from("data2.in"), String::from("data2.out")),
    ]);
    assert!(river::service::list_cases(&Vec::new()).is_empty());
    let unpaired = vec![String::from("data1.in")];
    assert!(river::service::list_cases(&unpaired).is_empty());
}

#[test]
fn a_negative_signal_marks_a_judge_failure() {
    let bad = judge_system_error(String::from("wait4 failure!"));
    match river::process::check_runner_status(&bad) {
        Err(Error::SystemError(m)) => assert_eq!(m, "wait4 failure!"),
        _ => panic!("expected SystemError"),
    }
    let fine = runner_status(0, 0, 0, 0, 0, 0, 0);
    assert!(river::process::check_runner_status(&fine).is_ok());
}
