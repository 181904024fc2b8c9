use river::result::{next_line, standard_result, JudgeResultEnum};

#[test]
fn result_test1() {
    let v: &[u8] = "Hello World!".as_bytes();
    let (l, r, e) = next_line(v, 0, v.len());
    assert_eq!(l, 0);
    assert_eq!(r, 12);
    assert!(e);
    let (_l, _r, e) = next_line(v, r, v.len());
    assert!(!e);
}

#[test]
fn test2() {
    let v: &[u8] = "Hello World!   ".as_bytes();
    let (l, r, e) = next_line(v, 0, v.len());
    assert_eq!(l, 0);
    assert_eq!(r, 12);
    assert!(e);
}

#[test]
fn test3() {
    let v: &[u8] = "   Hello World!".as_bytes();
    let (l, r, e) = next_line(v, 0, v.len());
    assert_eq!(l, 0);
    assert_eq!(r, 15);
    assert!(e);
}

#[test]
fn test4() {
    let v: &[u8] =
        "   Hello World!\n   Hello World!\n\n\n\n   \n\n\n\n\n\n    \t\t\t   \t\n\n\n\n".as_bytes();
    let (l, r, e) = next_line(v, 0, v.len());
    assert_eq!(l, 0);
    assert_eq!(r, 15);
    assert!(e);
    let (l, r, e) = next_line(v, r, v.len());
    assert_eq!(l, 16);
    assert_eq!(r, 31);
    assert!(e);
    let (_l, _r, e) = next_line(v, r, v.len());
    assert!(!e);
}

#[test]
fn test5() {
    let ans: &[u8] = "Hello World!".as_bytes();
    let out: &[u8] = "Hello World!".as_bytes();
    assert_eq!(standard_result(out, ans).unwrap(), JudgeResultEnum::Accepted);
}

#[test]
fn test6() {
    let ans: &[u8] = "Hello World!".as_bytes();
    let out: &[u8] = "Hello World!   ".as_bytes();
    assert_eq!(standard_result(out, ans).unwrap(), JudgeResultEnum::Accepted);
}

#[test]
fn test7() {
    let ans: &[u8] = "Hello World!  \n\n\n\n  \n\n\n\n".as_bytes();
    let out: &[u8] = "Hello World!\t\t\t\t\n\n\n\n    \n\n\n\n\t\t\t\t".as_bytes();
    assert_eq!(standard_result(out, ans).unwrap(), JudgeResultEnum::Accepted);
}

#[test]
fn test8() {
    let ans: &[u8] = "Hello World!".as_bytes();
    let out: &[u8] = "".as_bytes();
    assert_eq!(standard_result(out, ans).unwrap(), JudgeResultEnum::WrongAnswer);
}

#[test]
fn test9() {
    let ans: &[u8] = "".as_bytes();
    let out: &[u8] = "".as_bytes();
    assert_eq!(standard_result(out, ans).unwrap(), JudgeResultEnum::Accepted);
}

#[test]
fn test10() {
    let ans: &[u8] = "Hello World!".as_bytes();
    let out: &[u8] = "Hello World!\n".as_bytes();
    assert_eq!(standard_result(out, ans).unwrap(), JudgeResultEnum::Accepted);
}

#[test]
fn compare_is_reflexive_on_arbitrary_bytes() {
    let samples: Vec<&[u8]> = vec![
        b"",
        b"a",
        b"a b\nc\n",
        b"\n\n\n",
        b"  mixed \t content \r\n lines \n",
        b"\x00binary\xffbytes\n\x01",
    ];
    for s in samples {
        assert_eq!(standard_result(s, s).unwrap(), JudgeResultEnum::Accepted);
    }
}

#[test]
fn compare_is_symmetric() {
    let pairs: Vec<(&[u8], &[u8])> = vec![
        (b"a\nb\n", b"a\nb"),
        (b"a\nb\n", b"a\nc"),
        (b"1 2 3", b"1 2  3"),
        (b"", b"x"),
    ];
    for (a, b) in pairs {
        assert_eq!(
            standard_result(a, b).unwrap(),
            standard_result(b, a).unwrap()
        );
    }
}

#[test]
fn compare_ignores_crlf_endings() {
    let out: &[u8] = b"first line\r\nsecond line\r\n";
    let ans: &[u8] = b"first line\nsecond line\n";
    assert_eq!(standard_result(out, ans).unwrap(), JudgeResultEnum::Accepted);
}

#[test]
fn compare_ignores_inserted_blank_lines() {
    let out: &[u8] = b"\n  \nalpha\n\n\t\nbeta\n\n";
    let ans: &[u8] = b"alpha\nbeta";
    assert_eq!(standard_result(out, ans).unwrap(), JudgeResultEnum::Accepted);
}

#[test]
fn compare_rejects_single_byte_difference() {
    let out: &[u8] = b"alpha\nbeta\n";
    let ans: &[u8] = b"alpha\nbesa\n";
    assert_eq!(standard_result(out, ans).unwrap(), JudgeResultEnum::WrongAnswer);
}

#[test]
fn compare_rejects_interior_whitespace_difference() {
    let out: &[u8] = b"a b";
    let ans: &[u8] = b"a  b";
    assert_eq!(standard_result(out, ans).unwrap(), JudgeResultEnum::WrongAnswer);
}

#[test]
fn compare_rejects_extra_content_line() {
    let out: &[u8] = b"a\nb\nc\n";
    let ans: &[u8] = b"a\nb\n";
    assert_eq!(standard_result(out, ans).unwrap(), JudgeResultEnum::WrongAnswer);
}

#[test]
fn whitespace_variants_are_all_accepted() {
    let base = b"alpha beta\ngamma\ndelta 42\n".to_vec();
    // Grow variants by sprinkling trailing whitespace before line feeds and
    // inserting fully blank lines at every line boundary.
    for pos in 0..base.len() {
        if base[pos] == b'\n' {
            for ws in [b' ', b'\t', b'\r'] {
                let mut v = base.clone();
                v.insert(pos, ws);
                assert_eq!(
                    standard_result(&v, &base).unwrap(),
                    JudgeResultEnum::Accepted
                );
            }
            for blank in ["\n", "  \n", "\t\r\n"] {
                let mut v = base.clone();
                let at = pos + 1;
                for (k, b) in blank.bytes().enumerate() {
                    v.insert(at + k, b);
                }
                assert_eq!(
                    standard_result(&v, &base).unwrap(),
                    JudgeResultEnum::Accepted
                );
            }
        }
    }
}

#[test]
fn non_whitespace_mutations_are_all_rejected() {
    let base = b"alpha beta\ngamma\ndelta 42\n".to_vec();
    for pos in 0..base.len() {
        let c = base[pos];
        if c != b' ' && c != b'\t' && c != b'\r' && c != b'\n' {
            let mut v = base.clone();
            v[pos] = if c == b'x' { b'y' } else { b'x' };
            assert_eq!(
                standard_result(&v, &base).unwrap(),
                JudgeResultEnum::WrongAnswer
            );
        }
    }
}
