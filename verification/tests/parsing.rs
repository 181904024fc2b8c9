use river::error::Error;
use river::sandbox::{
    int_to_string, parse_exit_status, split_string, str_eq, string_to_i64,
};

#[test]
fn string_to_i64_parses_plain_numbers() {
    assert_eq!(string_to_i64("0").unwrap(), 0);
    assert_eq!(string_to_i64("12345").unwrap(), 12345);
    assert_eq!(string_to_i64("+7").unwrap(), 7);
    assert_eq!(string_to_i64("-42").unwrap(), -42);
    assert_eq!(string_to_i64("007").unwrap(), 7);
}

#[test]
fn string_to_i64_handles_the_64_bit_edges() {
    assert_eq!(string_to_i64("9223372036854775807").unwrap(), i64::MAX);
    assert_eq!(string_to_i64("-9223372036854775808").unwrap(), i64::MIN);
    assert!(string_to_i64("9223372036854775808").is_err());
    assert!(string_to_i64("-9223372036854775809").is_err());
}

#[test]
fn string_to_i64_rejects_malformed_values() {
    for bad in ["", "-", "+", "12a", " 12", "12 ", "1.5", "0x10"] {
        match string_to_i64(bad) {
            Err(Error::StringToIntError(m)) => assert_eq!(m, bad),
            other => panic!("expected StringToIntError for {:?}, got {:?}", bad, other.is_ok()),
        }
    }
}

#[test]
fn int_to_string_renders_decimals() {
    assert_eq!(int_to_string(0), "0");
    assert_eq!(int_to_string(7), "7");
    assert_eq!(int_to_string(1048576), "1048576");
    assert_eq!(int_to_string(-1), "-1");
    assert_eq!(int_to_string(i64::MAX), "9223372036854775807");
    assert_eq!(int_to_string(i64::MIN), "-9223372036854775808");
}

#[test]
fn int_to_string_round_trips_through_the_parser() {
    for v in [0i64, 1, -1, 999, -1000, i64::MAX, i64::MIN] {
        assert_eq!(string_to_i64(int_to_string(v).as_str()).unwrap(), v);
    }
}

#[test]
fn split_string_keeps_empty_fields() {
    let t = split_string("a  b", ' ');
    assert_eq!(t, vec!["a", "", "b"]);
    let t = split_string("", ' ');
    assert_eq!(t, vec![""]);
    let t = split_string("/bin/echo Hello World!", ' ');
    assert_eq!(t, vec!["/bin/echo", "Hello", "World!"]);
    let t = split_string("x\n", '\n');
    assert_eq!(t, vec!["x", ""]);
}

#[test]
fn str_eq_compares_by_characters() {
    assert!(str_eq("", ""));
    assert!(str_eq("abc", "abc"));
    assert!(!str_eq("abc", "abd"));
    assert!(!str_eq("abc", "abcd"));
}

#[test]
fn parse_exit_status_reads_all_keys() {
    let text = "time_used = 12\nmemory_used = 340\nexit_code = 1\nstatus = 256\nsignal = 9\n";
    let st = parse_exit_status(text).unwrap();
    assert_eq!(st.time_used, 12);
    assert_eq!(st.memory_used, 340);
    assert_eq!(st.exit_code, 1);
    assert_eq!(st.status, 256);
    assert_eq!(st.signal, 9);
}

#[test]
fn parse_exit_status_ignores_unknown_keys_and_plain_lines() {
    let text = "hello\nnote = ignored\ntime_used = 5\n\n";
    let st = parse_exit_status(text).unwrap();
    assert_eq!(st.time_used, 5);
    assert_eq!(st.memory_used, 0);
    assert_eq!(st.exit_code, 0);
    assert_eq!(st.status, 0);
    assert_eq!(st.signal, 0);
}

#[test]
fn parse_exit_status_rejects_an_unsplittable_line() {
    let text = "time_used=5\n";
    match parse_exit_status(text) {
        Err(Error::StringSplitError) => {}
        _ => panic!("expected StringSplitError"),
    }
}

#[test]
fn parse_exit_status_rejects_a_bad_value() {
    let text = "time_used = soon\n";
    match parse_exit_status(text) {
        Err(Error::StringToIntError(m)) => assert_eq!(m, "soon"),
        _ => panic!("expected StringToIntError"),
    }
}

#[test]
fn later_lines_overwrite_earlier_ones() {
    let text = "signal = 1\nsignal = 2\n";
    let st = parse_exit_status(text).unwrap();
    assert_eq!(st.signal, 2);
}

#[test]
fn build_tokens_splits_on_any_whitespace() {
    let tokens = river::exec_args::build_tokens(&String::from("  /bin/echo \t Hello\nWorld  "))
        .unwrap();
    assert_eq!(tokens, vec!["/bin/echo", "Hello", "World"]);
}

#[test]
fn build_tokens_rejects_an_empty_command() {
    match river::exec_args::build_tokens(&String::from("   \t ")) {
        Err(Error::BadCommand) => {}
        _ => panic!("expected BadCommand"),
    }
    match river::exec_args::build_tokens(&String::new()) {
        Err(Error::BadCommand) => {}
        _ => panic!("expected BadCommand"),
    }
}

#[test]
fn build_tokens_rejects_an_interior_nul() {
    let cmd = String::from("/bin/e\0cho hi");
    match river::exec_args::build_tokens(&cmd) {
        Err(Error::NullInString(m)) => assert_eq!(m, cmd),
        _ => panic!("expected NullInString"),
    }
    assert_eq!(
        Error::NullInString(String::from("x")).message(),
        "NullInString: `x`"
    );
    assert_eq!(Error::BadCommand.message(), "BadCommand");
}

#[test]
fn vm_rss_is_read_from_a_status_text() {
    let text = "Name:\tjava\nVmPeak:\t  999999 kB\nVmRSS:\t   5432 kB\nThreads:\t12\n";
    assert_eq!(river::process::parse_vm_rss(text), Some(5432));
    assert_eq!(river::process::parse_vm_rss("Name:\tjava\n"), None);
    assert_eq!(river::process::parse_vm_rss(""), None);
    // The first VmRSS line wins; a line without digits yields nothing.
    let twice = "VmRSS:\t 7 kB\nVmRSS:\t 9 kB\n";
    assert_eq!(river::process::parse_vm_rss(twice), Some(7));
    assert_eq!(river::process::parse_vm_rss("VmRSS: kB\n"), None);
}
