use river::allow::{gen_rules, trace_syscall};
use river::process::{deny_syscall, deny_syscalls};
use river::sandbox::Sandbox;
use river::seccomp::{
    allow_syscall, BpfInstruction, SeccompAction, SeccompCmpOp, SeccompCondition, SeccompFilter,
    SeccompRule,
};
use river::sysnum::{SYS_MOUNT, SYS_NANOSLEEP, SYS_PTRACE, SYS_READ};

#[test]
fn sandbox_splits_the_command_on_whitespace() {
    let s = Sandbox::new(
        &String::from("/bin/echo  Hello\tWorld! "),
        String::from("/tmp/work"),
        String::from("/srv/rootfs"),
        String::from("/tmp/work/result.txt"),
        String::from("/STDIN/"),
        String::from("/tmp/work/stdout.txt"),
        String::from("/tmp/work/stderr.txt"),
        1000,
        65535,
        52428800,
        1,
        32,
    );
    assert_eq!(s.inner_args, vec!["/bin/echo", "Hello", "World!"]);
    assert_eq!(s.time_limit, 1000);
    assert_eq!(s.memory_limit, 65535);
}

#[test]
fn sandbox_argv_lists_every_flag_in_order() {
    let s = Sandbox::new(
        &String::from("/bin/echo hi"),
        String::from("/w"),
        String::from("/r"),
        String::from("/w/result.txt"),
        String::from("/STDIN/"),
        String::from("/w/stdout.txt"),
        String::from("/w/stderr.txt"),
        1000,
        65536,
        52428800,
        1,
        32,
    );
    let args = s.argv();
    assert_eq!(
        args,
        vec![
            "./newbie-sandbox/target/x86_64-unknown-linux-gnu/release/newbie-sandbox",
            "-w",
            "/w",
            "--rootfs",
            "/r",
            "-r",
            "/w/result.txt",
            "-i",
            "/STDIN/",
            "-o",
            "/w/stdout.txt",
            "-e",
            "/w/stderr.txt",
            "-t",
            "1000",
            "-m",
            "65536",
            "-f",
            "52428800",
            "-c",
            "1",
            "-p",
            "32",
            "--",
            "/bin/echo",
            "hi",
        ]
    );
}

#[test]
fn allow_and_deny_rule_sets_have_the_documented_shape() {
    let (nr, rules) = allow_syscall(SYS_READ);
    assert_eq!(nr, SYS_READ);
    assert_eq!(rules.len(), 1);
    assert!(rules[0].conditions.is_empty());
    assert!(matches!(rules[0].action, SeccompAction::Allow));

    let (nr, rules) = deny_syscall(SYS_MOUNT);
    assert_eq!(nr, SYS_MOUNT);
    assert!(matches!(rules[0].action, SeccompAction::Kill));

    let (nr, rules) = trace_syscall(SYS_NANOSLEEP);
    assert_eq!(nr, SYS_NANOSLEEP);
    assert!(matches!(rules[0].action, SeccompAction::Trace(42)));
}

#[test]
fn the_allow_list_and_the_block_list_are_complete() {
    let rules = gen_rules();
    assert_eq!(rules.len(), 99);
    assert!(rules.iter().any(|(nr, _)| *nr == SYS_READ));
    assert!(rules.iter().all(|(_, rs)| rs.len() == 1));

    let denied = deny_syscalls();
    assert_eq!(denied.len(), 46);
    assert!(denied.iter().any(|(nr, _)| *nr == SYS_PTRACE));
    assert!(denied.iter().any(|(nr, _)| *nr == SYS_MOUNT));
}

#[test]
fn a_one_rule_filter_compiles_to_the_documented_program() {
    let filter = SeccompFilter::new(vec![allow_syscall(SYS_READ)], SeccompAction::Kill);
    let prog = filter.into_bpf().unwrap();
    let expected = vec![
        // Preamble: load the architecture word and kill foreign binaries.
        BpfInstruction { code: 0x20, jt: 0, jf: 0, k: 4 },
        BpfInstruction { code: 0x15, jt: 1, jf: 0, k: 0xC000003E },
        BpfInstruction { code: 0x06, jt: 0, jf: 0, k: 0 },
        // Load the syscall number.
        BpfInstruction { code: 0x20, jt: 0, jf: 0, k: 0 },
        // Allow SYS_READ, whose number is zero.
        BpfInstruction { code: 0x15, jt: 0, jf: 1, k: 0 },
        BpfInstruction { code: 0x06, jt: 0, jf: 0, k: 0x7fff0000 },
        // Default action: kill.
        BpfInstruction { code: 0x06, jt: 0, jf: 0, k: 0 },
    ];
    assert_eq!(prog, expected);
}

#[test]
fn a_condition_compiles_to_a_two_word_comparison() {
    let cond = SeccompCondition::new(1, SeccompCmpOp::Eq, 0x1_0000_0002);
    let rule = SeccompRule::new(vec![cond], SeccompAction::Errno(38));
    let filter = SeccompFilter::new(vec![(7, vec![rule])], SeccompAction::Allow);
    let prog = filter.into_bpf().unwrap();
    let expected = vec![
        BpfInstruction { code: 0x20, jt: 0, jf: 0, k: 4 },
        BpfInstruction { code: 0x15, jt: 1, jf: 0, k: 0xC000003E },
        BpfInstruction { code: 0x06, jt: 0, jf: 0, k: 0 },
        BpfInstruction { code: 0x20, jt: 0, jf: 0, k: 0 },
        // Dispatch on syscall 7; the rule body is five instructions.
        BpfInstruction { code: 0x15, jt: 0, jf: 5, k: 7 },
        // High word must equal 1.
        BpfInstruction { code: 0x20, jt: 0, jf: 0, k: 28 },
        BpfInstruction { code: 0x15, jt: 0, jf: 3, k: 1 },
        // Low word must equal 2.
        BpfInstruction { code: 0x20, jt: 0, jf: 0, k: 24 },
        BpfInstruction { code: 0x15, jt: 0, jf: 1, k: 2 },
        // The rule's action: errno 38.
        BpfInstruction { code: 0x06, jt: 0, jf: 0, k: 0x00050000 | 38 },
        // Default action: allow.
        BpfInstruction { code: 0x06, jt: 0, jf: 0, k: 0x7fff0000 },
    ];
    assert_eq!(prog, expected);
}

#[test]
fn the_full_run_policy_compiles_within_the_kernel_budget() {
    let mut filter = SeccompFilter::new(gen_rules(), SeccompAction::Kill);
    let (nr, rules) = trace_syscall(12);
    filter.add_rules(nr, rules);
    let prog = filter.into_bpf().unwrap();
    assert!(prog.len() <= 4096);
    assert_eq!(prog.len(), 4 + 2 * 100 + 1);
    assert_eq!(prog[0].code, 0x20);
    assert_eq!(prog[prog.len() - 1], BpfInstruction { code: 0x06, jt: 0, jf: 0, k: 0 });
}
