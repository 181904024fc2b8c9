//! Configuration of one sandboxed execution and the parsing of its result
//! file.  The sandbox helper is an external program: this module builds its
//! argument vector and reads back the `key = value` lines it writes; the
//! process launch itself is host I/O and lives outside the library.

use vstd::prelude::*;

verus! {

use crate::error::Error;

/// Exit data of one sandboxed process, as read from the result file.
#[derive(Clone, Copy, Debug, PartialEq, Eq, Structural)]
pub struct ProcessExitStatus {
    pub time_used: i64,
    pub memory_used: i64,
    pub exit_code: i64,
    pub status: i64,
    pub signal: i64,
}

/// Index of the first occurrence of `sep` in `s`, or `s.len()`.
pub open spec fn first_sep(s: Seq<char>, sep: char) -> nat
    decreases s.len(),
{
    if s.len() == 0 {
        0
    } else if s[0] == sep {
        0
    } else {
        1 + first_sep(s.skip(1), sep)
    }
}

/// `s` split on every occurrence of `sep`.  Separators are not kept; empty
/// fields are, so splitting the empty sequence yields one empty field.
pub open spec fn split_chars(s: Seq<char>, sep: char) -> Seq<Seq<char>>
    decreases s.len(),
{
    let i = first_sep(s, sep) as int;
    if i < s.len() {
        seq![s.take(i)] + split_chars(s.skip(i + 1), sep)
    } else {
        seq![s]
    }
}

proof fn lemma_first_sep_at(v: Seq<char>, sep: char, a: int, j: int)
    requires
        0 <= a <= j <= v.len(),
        forall|p: int| a <= p < j ==> #[trigger] v[p] != sep,
        j == v.len() || v[j] == sep,
    ensures
        first_sep(v.skip(a), sep) as int == j - a,
    decreases j - a,
{
    if a == j {
        if j < v.len() {
            assert(v.skip(a)[0] == v[j]);
        }
    } else {
        assert(v.skip(a)[0] == v[a]);
        assert(v.skip(a).skip(1) =~= v.skip(a + 1));
        lemma_first_sep_at(v, sep, a + 1, j);
    }
}

/// Unfolds `split_chars` of a suffix at a known separator position.
proof fn lemma_split_step(v: Seq<char>, sep: char, a: int, j: int)
    requires
        0 <= a <= j <= v.len(),
        forall|p: int| a <= p < j ==> #[trigger] v[p] != sep,
        j == v.len() || v[j] == sep,
    ensures
        j < v.len() ==> split_chars(v.skip(a), sep) == seq![v.subrange(a, j)] + split_chars(
            v.skip(j + 1),
            sep,
        ),
        j == v.len() ==> split_chars(v.skip(a), sep) == seq![v.subrange(a, j)],
{
    lemma_first_sep_at(v, sep, a, j);
    if j < v.len() {
        assert(v.skip(a).take(j - a) =~= v.subrange(a, j));
        assert(v.skip(a).skip(j - a + 1) =~= v.skip(j + 1));
    } else {
        assert(v.skip(a) =~= v.subrange(a, j));
    }
}

/// Splits `s` on `sep`, keeping empty fields, exactly as `split_chars` says.
pub fn split_string(s: &str, sep: char) -> (tokens: Vec<String>)
    ensures
        tokens@.map_values(|t: String| t@) == split_chars(s@, sep),
{
    let n = s.unicode_len();
    let mut tokens: Vec<String> = Vec::new();
    let mut start: usize = 0;
    let ghost mut done: Seq<Seq<char>> = Seq::empty();
    proof {
        assert(s@.skip(0) =~= s@);
        assert(done + split_chars(s@, sep) =~= split_chars(s@, sep));
    }
    loop
        invariant_except_break
            split_chars(s@, sep) == done + split_chars(s@.skip(start as int), sep),
        invariant
            n == s@.len(),
            start <= n,
            tokens@.map_values(|t: String| t@) == done,
        ensures
            tokens@.map_values(|t: String| t@) == split_chars(s@, sep),
        decreases n - start,
    {
        let mut j = start;
        while j < n
            invariant
                n == s@.len(),
                start <= j <= n,
                forall|p: int| start <= p < j ==> #[trigger] s@[p] != sep,
            ensures
                start <= j <= n,
                forall|p: int| start <= p < j ==> #[trigger] s@[p] != sep,
                j < n ==> s@[j as int] == sep,
            decreases n - j,
        {
            if s.get_char(j) == sep {
                break;
            }
            j = j + 1;
        }
        let tok = s.substring_char(start, j);
        tokens.push(tok.to_owned());
        proof {
            lemma_split_step(s@, sep, start as int, j as int);
            let prev = done;
            done = done.push(s@.subrange(start as int, j as int));
            assert(tokens@.map_values(|t: String| t@) =~= done);
            if j < n {
                assert(done + split_chars(s@.skip(j as int + 1), sep) =~= prev + split_chars(
                    s@.skip(start as int),
                    sep,
                ));
            } else {
                assert(done =~= prev + split_chars(s@.skip(start as int), sep));
            }
        }
        if j < n {
            start = j + 1;
        } else {
            break;
        }
    }
    tokens
}

/// Character-wise string equality.
pub fn str_eq(a: &str, b: &str) -> (r: bool)
    ensures
        r == (a@ == b@),
{
    let na = a.unicode_len();
    let nb = b.unicode_len();
    if na != nb {
        return false;
    }
    let mut i: usize = 0;
    while i < na
        invariant
            na == a@.len(),
            na == b@.len(),
            i <= na,
            forall|p: int| 0 <= p < i ==> a@[p] == #[trigger] b@[p],
        decreases na - i,
    {
        if a.get_char(i) != b.get_char(i) {
            return false;
        }
        i = i + 1;
    }
    proof {
        assert(a@ =~= b@);
    }
    true
}

/// The decimal digit character for `d`.
pub open spec fn digit_char(d: int) -> char {
    ((d + 48) as u8) as char
}

/// Decimal digits of a non-negative number, without a leading zero; the
/// empty sequence for zero.
pub open spec fn spec_udec(n: int) -> Seq<char>
    decreases n,
{
    if n <= 0 {
        Seq::empty()
    } else {
        spec_udec(n / 10).push(digit_char(n % 10))
    }
}

/// The base-10 rendering of `v`, sign included.
pub open spec fn spec_i64_string(v: int) -> Seq<char> {
    if v == 0 {
        seq!['0']
    } else if v < 0 {
        seq!['-'] + spec_udec(-v)
    } else {
        spec_udec(v)
    }
}

fn digit_str(d: u64) -> (s: &'static str)
    requires
        d < 10,
    ensures
        s@ == seq![digit_char(d as int)],
{
    proof {
        reveal_strlit("0");
        reveal_strlit("1");
        reveal_strlit("2");
        reveal_strlit("3");
        reveal_strlit("4");
        reveal_strlit("5");
        reveal_strlit("6");
        reveal_strlit("7");
        reveal_strlit("8");
        reveal_strlit("9");
    }
    match d {
        0 => "0",
        1 => "1",
        2 => "2",
        3 => "3",
        4 => "4",
        5 => "5",
        6 => "6",
        7 => "7",
        8 => "8",
        _ => "9",
    }
}

fn udec_string(n: u64) -> (s: String)
    ensures
        s@ == spec_udec(n as int),
    decreases n,
{
    if n == 0 {
        String::new()
    } else {
        let mut s = udec_string(n / 10);
        s.append(digit_str(n % 10));
        s
    }
}

/// Renders `v` in base 10, as the sandbox helper expects its numeric
/// arguments.
pub fn int_to_string(v: i64) -> (s: String)
    ensures
        s@ == spec_i64_string(v as int),
{
    if v == 0 {
        proof {
            reveal_strlit("0");
        }
        "0".to_owned()
    } else if v < 0 {
        let mag: u64 = (-(v as i128)) as u64;
        let mut s = "-".to_owned();
        proof {
            reveal_strlit("-");
            assert("-"@ =~= seq!['-']);
        }
        s.append(udec_string(mag).as_str());
        s
    } else {
        udec_string(v as u64)
    }
}

/// Renders an unsigned value in base 10.
pub fn uint_to_string(v: u64) -> (s: String)
    ensures
        s@ == spec_i64_string(v as int),
{
    if v == 0 {
        proof {
            reveal_strlit("0");
        }
        "0".to_owned()
    } else {
        udec_string(v)
    }
}

/// A decimal digit.
pub open spec fn is_digit(c: char) -> bool {
    48 <= c as u32 <= 57
}

/// The number a digit sequence denotes.
pub open spec fn spec_digits_val(s: Seq<char>) -> int
    decreases s.len(),
{
    if s.len() == 0 {
        0
    } else {
        spec_digits_val(s.drop_last()) * 10 + (s.last() as u32 - 48)
    }
}

/// The digits of `s` after an optional leading sign.
pub open spec fn spec_num_body(s: Seq<char>) -> Seq<char> {
    if s.len() > 0 && (s[0] == '-' || s[0] == '+') {
        s.skip(1)
    } else {
        s
    }
}

/// `s` is an optional sign followed by one or more decimal digits.
pub open spec fn valid_i64_chars(s: Seq<char>) -> bool {
    &&& spec_num_body(s).len() > 0
    &&& forall|i: int| 0 <= i < spec_num_body(s).len() ==> is_digit(#[trigger] spec_num_body(s)[i])
}

/// The signed number `s` denotes.
pub open spec fn spec_str_i64(s: Seq<char>) -> int {
    if s.len() > 0 && s[0] == '-' {
        -spec_digits_val(spec_num_body(s))
    } else {
        spec_digits_val(spec_num_body(s))
    }
}

proof fn lemma_digits_val_bounds(s: Seq<char>, i: int)
    requires
        0 <= i <= s.len(),
        forall|p: int| 0 <= p < s.len() ==> is_digit(#[trigger] s[p]),
    ensures
        spec_digits_val(s) >= spec_digits_val(s.take(i)) >= 0,
    decreases s.len() - i,
{
    if i == s.len() {
        assert(s.take(i) =~= s);
        lemma_digits_val_nonneg(s);
    } else {
        assert(s.take(i + 1).drop_last() =~= s.take(i));
        assert(s.take(i + 1).last() == s[i]);
        lemma_digits_val_nonneg(s.take(i));
        lemma_digits_val_bounds(s, i + 1);
    }
}

/// A digit sequence denotes a non-negative number.
pub proof fn lemma_digits_val_nonneg(s: Seq<char>)
    requires
        forall|p: int| 0 <= p < s.len() ==> is_digit(#[trigger] s[p]),
    ensures
        spec_digits_val(s) >= 0,
    decreases s.len(),
{
    if s.len() > 0 {
        lemma_digits_val_nonneg(s.drop_last());
    }
}

/// Parses a base-10 signed 64-bit integer, exactly as a result-file value is
/// read: an optional sign, then digits, nothing else, and the value must fit.
pub fn string_to_i64(value: &str) -> (res: Result<i64, Error>)
    ensures
        match res {
            Ok(n) => {
                &&& valid_i64_chars(value@)
                &&& i64::MIN <= spec_str_i64(value@) <= i64::MAX
                &&& n == spec_str_i64(value@)
            },
            Err(e) => {
                &&& !(valid_i64_chars(value@) && i64::MIN <= spec_str_i64(value@) <= i64::MAX)
                &&& e matches Error::StringToIntError(m) && m@ == value@
            },
        },
{
    let n = value.unicode_len();
    let mut start: usize = 0;
    let mut neg = false;
    if n > 0 {
        let c0 = value.get_char(0);
        if c0 == '-' {
            neg = true;
            start = 1;
        } else if c0 == '+' {
            start = 1;
        }
    }
    let ghost body = spec_num_body(value@);
    proof {
        assert(body =~= value@.skip(start as int));
    }
    if start == n {
        // Empty body: a bare sign or an empty string.
        return Err(Error::StringToIntError(value.to_owned()));
    }
    let mut acc: u128 = 0;
    let mut i = start;
    while i < n
        invariant_except_break
            n == value@.len(),
            start <= i <= n,
            body == spec_num_body(value@),
            body == value@.skip(start as int),
            body.len() == n - start,
            forall|p: int| 0 <= p < i - start ==> is_digit(#[trigger] body[p]),
            acc == spec_digits_val(body.take(i - start)),
            acc <= 0x8000_0000_0000_0000u128,
        ensures
            n == value@.len(),
            body == spec_num_body(value@),
            body == value@.skip(start as int),
            body.len() == n - start,
            forall|p: int| 0 <= p < body.len() ==> is_digit(#[trigger] body[p]),
            acc == spec_digits_val(body.take(n - start)),
            acc <= 0x8000_0000_0000_0000u128,
        decreases n - i,
    {
        let c = value.get_char(i);
        let code = c as u32;
        if code < 48 || code > 57 {
            proof {
                assert(body[i - start] == value@[i as int]);
                assert(!is_digit(spec_num_body(value@)[i - start]));
            }
            return Err(Error::StringToIntError(value.to_owned()));
        }
        let d = (code - 48) as u128;
        proof {
            assert(body.take(i - start + 1).drop_last() =~= body.take(i - start));
            assert(body.take(i - start + 1).last() == body[i - start]);
            assert(body[i - start] == value@[i as int]);
        }
        acc = acc * 10 + d;
        i = i + 1;
        if acc > 0x8000_0000_0000_0000u128 {
            // Any further digits only grow the magnitude: out of range.
            proof {
                if valid_i64_chars(value@) {
                    assert forall|p: int| 0 <= p < body.len() implies is_digit(
                        #[trigger] body[p],
                    ) by {
                        assert(is_digit(spec_num_body(value@)[p]));
                    }
                    lemma_digits_val_bounds(body, i - start);
                    assert(spec_digits_val(body) >= acc > 0x8000_0000_0000_0000u128);
                    if value@[0] == '-' {
                        assert(spec_str_i64(value@) == -spec_digits_val(body));
                        assert(spec_str_i64(value@) < i64::MIN);
                    } else {
                        assert(spec_str_i64(value@) == spec_digits_val(body));
                        assert(spec_str_i64(value@) > i64::MAX);
                    }
                }
            }
            return Err(Error::StringToIntError(value.to_owned()));
        }
    }
    proof {
        assert(body.take(n - start) =~= body);
        assert(acc == spec_digits_val(body));
        assert forall|p: int| 0 <= p < spec_num_body(value@).len() implies is_digit(
            #[trigger] spec_num_body(value@)[p],
        ) by {
            assert(is_digit(body[p]));
        }
        assert(valid_i64_chars(value@));
    }
    if neg {
        proof {
            assert(value@[0] == '-');
            assert(spec_str_i64(value@) == -spec_digits_val(body));
        }
        let m: i128 = -(acc as i128);
        Ok(m as i64)
    } else {
        proof {
            assert(n > 0 && value@[0] != '-');
            assert(spec_str_i64(value@) == spec_digits_val(body));
        }
        if acc > 0x7fff_ffff_ffff_ffffu128 {
            return Err(Error::StringToIntError(value.to_owned()));
        }
        Ok(acc as i64)
    }
}

/// One sandboxed execution of an external command, as handed to the sandbox
/// helper program: the command (already split into tokens), the paths it
/// works with, and its resource limits.
pub struct Sandbox {
    pub inner_args: Vec<String>,
    pub workdir: String,
    pub rootfs: String,
    pub result: String,
    pub stdin: String,
    pub stdout: String,
    pub stderr: String,
    pub time_limit: i32,
    pub memory_limit: i32,
    pub file_size_limit: i32,
    pub cgroup: i32,
    pub pids: i32,
}

/// The argument vector handed to the sandbox helper for `s`: its own path,
/// the option flags with their values, then the command tokens after `--`.
pub open spec fn spec_argv(s: Sandbox) -> Seq<Seq<char>> {
    seq![
        "./newbie-sandbox/target/x86_64-unknown-linux-gnu/release/newbie-sandbox"@,
        "-w"@,
        s.workdir@,
        "--rootfs"@,
        s.rootfs@,
        "-r"@,
        s.result@,
        "-i"@,
        s.stdin@,
        "-o"@,
        s.stdout@,
        "-e"@,
        s.stderr@,
        "-t"@,
        spec_i64_string(s.time_limit as int),
        "-m"@,
        spec_i64_string(s.memory_limit as int),
        "-f"@,
        spec_i64_string(s.file_size_limit as int),
        "-c"@,
        spec_i64_string(s.cgroup as int),
        "-p"@,
        spec_i64_string(s.pids as int),
        "--"@,
    ] + s.inner_args@.map_values(|t: String| t@)
}

impl Sandbox {
    /// Records one execution: the command string is split on whitespace
    /// into its token vector; every other argument is stored as given.
    pub fn new(
        cmd: &String,
        workdir: String,
        rootfs: String,
        result: String,
        stdin: String,
        stdout: String,
        stderr: String,
        time_limit: i32,
        memory_limit: i32,
        file_size_limit: i32,
        cgroup: i32,
        pids: i32,
    ) -> (s: Sandbox)
        ensures
            s.inner_args@.map_values(|t: String| t@) == crate::exec_args::spec_tokens(cmd@),
            s.workdir == workdir,
            s.rootfs == rootfs,
            s.result == result,
            s.stdin == stdin,
            s.stdout == stdout,
            s.stderr == stderr,
            s.time_limit == time_limit,
            s.memory_limit == memory_limit,
            s.file_size_limit == file_size_limit,
            s.cgroup == cgroup,
            s.pids == pids,
    {
        let inner_args = crate::exec_args::tokenize(cmd.as_str());
        Sandbox {
            inner_args,
            workdir,
            rootfs,
            result,
            stdin,
            stdout,
            stderr,
            time_limit,
            memory_limit,
            file_size_limit,
            cgroup,
            pids,
        }
    }

    /// Builds the sandbox helper's argument vector, exactly `spec_argv`.
    pub fn argv(&self) -> (args: Vec<String>)
        ensures
            args@.map_values(|t: String| t@) == spec_argv(*self),
    {
        let mut args: Vec<String> = Vec::new();
        args.push("./newbie-sandbox/target/x86_64-unknown-linux-gnu/release/newbie-sandbox"
            .to_owned());
        args.push("-w".to_owned());
        args.push(self.workdir.clone());
        args.push("--rootfs".to_owned());
        args.push(self.rootfs.clone());
        args.push("-r".to_owned());
        args.push(self.result.clone());
        args.push("-i".to_owned());
        args.push(self.stdin.clone());
        args.push("-o".to_owned());
        args.push(self.stdout.clone());
        args.push("-e".to_owned());
        args.push(self.stderr.clone());
        args.push("-t".to_owned());
        args.push(int_to_string(self.time_limit as i64));
        args.push("-m".to_owned());
        args.push(int_to_string(self.memory_limit as i64));
        args.push("-f".to_owned());
        args.push(int_to_string(self.file_size_limit as i64));
        args.push("-c".to_owned());
        args.push(int_to_string(self.cgroup as i64));
        args.push("-p".to_owned());
        args.push(int_to_string(self.pids as i64));
        args.push("--".to_owned());
        let ghost head = args@.map_values(|t: String| t@);
        let mut k: usize = 0;
        while k < self.inner_args.len()
            invariant
                k <= self.inner_args@.len(),
                args@.map_values(|t: String| t@) == head + self.inner_args@.take(
                    k as int,
                ).map_values(|t: String| t@),
            decreases self.inner_args@.len() - k,
        {
            let ghost prevm = args@.map_values(|t: String| t@);
            args.push(self.inner_args[k].clone());
            proof {
                assert(args@.map_values(|t: String| t@) =~= prevm.push(
                    self.inner_args@[k as int]@,
                ));
                assert(self.inner_args@.take(k as int + 1).map_values(|t: String| t@)
                    =~= self.inner_args@.take(k as int).map_values(|t: String| t@).push(
                    self.inner_args@[k as int]@,
                ));
                assert(args@.map_values(|t: String| t@) =~= head + self.inner_args@.take(
                    k as int + 1,
                ).map_values(|t: String| t@));
            }
            k = k + 1;
        }
        proof {
            assert(self.inner_args@.take(self.inner_args@.len() as int) =~= self.inner_args@);
            assert(args@.map_values(|t: String| t@) =~= spec_argv(*self));
        }
        args
    }
}

proof fn lemma_udec_val(n: int)
    requires
        n >= 0,
    ensures
        spec_digits_val(spec_udec(n)) == n,
        forall|i: int| 0 <= i < spec_udec(n).len() ==> is_digit(#[trigger] spec_udec(n)[i]),
        n > 0 ==> spec_udec(n).len() > 0,
    decreases n,
{
    if n > 0 {
        lemma_udec_val(n / 10);
        let s = spec_udec(n);
        let prefix = spec_udec(n / 10);
        assert(s.drop_last() =~= prefix);
        assert(s.last() == digit_char(n % 10));
        assert(digit_char(n % 10) as u32 == n % 10 + 48);
        assert forall|i: int| 0 <= i < s.len() implies is_digit(#[trigger] s[i]) by {
            if i < prefix.len() {
                assert(s[i] == prefix[i]);
            } else {
                assert(s[i] == digit_char(n % 10));
            }
        }
    }
}

/// Round trip of the decimal forms: rendering any 64-bit value and
/// reading it back yields the value itself, so the numbers handed to the
/// sandbox helper mean exactly what its result file will say.
pub proof fn lemma_int_string_round_trip(v: int)
    requires
        i64::MIN <= v <= i64::MAX,
    ensures
        valid_i64_chars(spec_i64_string(v)),
        i64::MIN <= spec_str_i64(spec_i64_string(v)) <= i64::MAX,
        spec_str_i64(spec_i64_string(v)) == v,
{
    let s = spec_i64_string(v);
    if v == 0 {
        assert(s == seq!['0']);
        assert(s[0] == '0');
        assert('0' as u32 == 48);
        assert(spec_num_body(s) == s);
        assert(spec_digits_val(s) == spec_digits_val(s.drop_last()) * 10 + (s.last() as u32 - 48));
        assert(s.drop_last() =~= Seq::<char>::empty());
    } else if v > 0 {
        lemma_udec_val(v);
        assert(s == spec_udec(v));
        assert(is_digit(s[0]));
        assert(s[0] as u32 != '-' as u32 && s[0] as u32 != '+' as u32);
        assert(s[0] != '-' && s[0] != '+');
        assert(spec_num_body(s) == s);
    } else {
        lemma_udec_val(-v);
        assert(s == seq!['-'] + spec_udec(-v));
        assert(s[0] == '-');
        assert(spec_num_body(s) =~= spec_udec(-v));
        assert(spec_str_i64(s) == -spec_digits_val(spec_udec(-v)));
    }
}

/// The three-character ` = ` separator stands at `i` in `s`.
pub open spec fn sep_at(s: Seq<char>, i: int) -> bool {
    i + 3 <= s.len() && s[i] == ' ' && s[i + 1] == '=' && s[i + 2] == ' '
}

/// Index of the first ` = ` separator at or after `j`, or `s.len()`.
pub open spec fn find_sep(s: Seq<char>, j: int) -> int
    decreases s.len() - j,
{
    if j < 0 || j + 3 > s.len() {
        s.len() as int
    } else if sep_at(s, j) {
        j
    } else {
        find_sep(s, j + 1)
    }
}

/// `s` holds an equals sign.
pub open spec fn contains_eq(s: Seq<char>) -> bool {
    exists|i: int| 0 <= i < s.len() && s[i] == '='
}

/// What a result-file value denotes: the parsed number, or nothing when it
/// is not a well-formed 64-bit integer.
pub open spec fn spec_parse_value(value: Seq<char>) -> Option<i64> {
    if valid_i64_chars(value) && i64::MIN <= spec_str_i64(value) <= i64::MAX {
        Some(spec_str_i64(value) as i64)
    } else {
        None
    }
}

/// Outcome of reading a result file: the accumulated exit data, or the
/// first failure (a line with an equals sign but no ` = ` separator, or a
/// recognized key whose value is not a number).
pub enum ParseOutcome {
    Parsed(ProcessExitStatus),
    SplitError,
    IntError(Seq<char>),
}

/// How one line updates the exit data.  Lines without an equals sign and
/// unrecognized keys are ignored.
pub open spec fn spec_line_outcome(st: ProcessExitStatus, line: Seq<char>) -> ParseOutcome {
    if !contains_eq(line) {
        ParseOutcome::Parsed(st)
    } else {
        let i = find_sep(line, 0);
        if i == line.len() {
            ParseOutcome::SplitError
        } else {
            let key = line.take(i);
            let value = line.skip(i + 3);
            if key == "time_used"@ {
                match spec_parse_value(value) {
                    Some(n) => ParseOutcome::Parsed(ProcessExitStatus { time_used: n, ..st }),
                    None => ParseOutcome::IntError(value),
                }
            } else if key == "memory_used"@ {
                match spec_parse_value(value) {
                    Some(n) => ParseOutcome::Parsed(ProcessExitStatus { memory_used: n, ..st }),
                    None => ParseOutcome::IntError(value),
                }
            } else if key == "exit_code"@ {
                match spec_parse_value(value) {
                    Some(n) => ParseOutcome::Parsed(ProcessExitStatus { exit_code: n, ..st }),
                    None => ParseOutcome::IntError(value),
                }
            } else if key == "status"@ {
                match spec_parse_value(value) {
                    Some(n) => ParseOutcome::Parsed(ProcessExitStatus { status: n, ..st }),
                    None => ParseOutcome::IntError(value),
                }
            } else if key == "signal"@ {
                match spec_parse_value(value) {
                    Some(n) => ParseOutcome::Parsed(ProcessExitStatus { signal: n, ..st }),
                    None => ParseOutcome::IntError(value),
                }
            } else {
                ParseOutcome::Parsed(st)
            }
        }
    }
}

/// Folds `spec_line_outcome` over the lines, stopping at the first failure.
pub open spec fn spec_parse_lines(st: ProcessExitStatus, lines: Seq<Seq<char>>) -> ParseOutcome
    decreases lines.len(),
{
    if lines.len() == 0 {
        ParseOutcome::Parsed(st)
    } else {
        match spec_line_outcome(st, lines[0]) {
            ParseOutcome::Parsed(st2) => spec_parse_lines(st2, lines.skip(1)),
            ParseOutcome::SplitError => ParseOutcome::SplitError,
            ParseOutcome::IntError(v) => ParseOutcome::IntError(v),
        }
    }
}

/// Exit data denoted by a whole result file, starting from all-zero fields.
pub open spec fn spec_parse_result(text: Seq<char>) -> ParseOutcome {
    spec_parse_lines(
        ProcessExitStatus { time_used: 0, memory_used: 0, exit_code: 0, status: 0, signal: 0 },
        split_chars(text, '\n'),
    )
}

proof fn lemma_find_sep_at(s: Seq<char>, a: int, j: int)
    requires
        0 <= a <= j <= s.len(),
        forall|p: int| a <= p < j ==> !#[trigger] sep_at(s, p),
        sep_at(s, j) || j + 3 > s.len(),
    ensures
        sep_at(s, j) ==> find_sep(s, a) == j,
        !sep_at(s, j) ==> find_sep(s, a) == s.len(),
    decreases j - a,
{
    if a < j {
        lemma_find_sep_at(s, a + 1, j);
    }
}

/// Reads the ` = ` separated key of one line and the value after it,
/// updating `st` as `spec_line_outcome` says.
fn apply_line(st: &mut ProcessExitStatus, line: &str) -> (res: Result<(), Error>)
    ensures
        match res {
            Ok(()) => spec_line_outcome(*old(st), line@) == ParseOutcome::Parsed(*final(st)),
            Err(Error::StringSplitError) => spec_line_outcome(*old(st), line@)
                == ParseOutcome::SplitError && *final(st) == *old(st),
            Err(Error::StringToIntError(m)) => spec_line_outcome(*old(st), line@)
                == ParseOutcome::IntError(m@) && *final(st) == *old(st),
            Err(_) => false,
        },
{
    let n = line.unicode_len();
    // Does the line hold an equals sign at all?
    let mut q: usize = 0;
    let mut has_eq = false;
    while q < n
        invariant_except_break
            !has_eq,
        invariant
            n == line@.len(),
            q <= n,
            forall|p: int| 0 <= p < q ==> line@[p] != '=',
        ensures
            n == line@.len(),
            has_eq ==> contains_eq(line@),
            !has_eq ==> forall|p: int| 0 <= p < n ==> line@[p] != '=',
        decreases n - q,
    {
        if line.get_char(q) == '=' {
            has_eq = true;
            proof {
                assert(contains_eq(line@));
            }
            break;
        }
        q = q + 1;
    }
    if !has_eq {
        proof {
            assert(!contains_eq(line@));
        }
        return Ok(());
    }
    // Find the first ` = ` separator.
    let mut j: usize = 0;
    let mut found = false;
    while n - j >= 3
        invariant_except_break
            !found,
        invariant
            n == line@.len(),
            j <= n,
            forall|p: int| 0 <= p < j ==> !#[trigger] sep_at(line@, p),
        ensures
            n == line@.len(),
            j <= n,
            forall|p: int| 0 <= p < j ==> !#[trigger] sep_at(line@, p),
            found ==> sep_at(line@, j as int),
            !found ==> j + 3 > n,
        decreases n - j,
    {
        if line.get_char(j) == ' ' && line.get_char(j + 1) == '=' && line.get_char(j + 2) == ' ' {
            found = true;
            proof {
                assert(sep_at(line@, j as int));
            }
            break;
        }
        j = j + 1;
    }
    proof {
        lemma_find_sep_at(line@, 0, j as int);
    }
    if !found {
        return Err(Error::StringSplitError);
    }
    let key = line.substring_char(0, j);
    let value = line.substring_char(j + 3, n);
    proof {
        assert(key@ =~= line@.take(j as int));
        assert(value@ =~= line@.skip(j as int + 3));
    }
    if str_eq(key, "time_used") {
        match string_to_i64(value) {
            Ok(v) => st.time_used = v,
            Err(e) => {
                return Err(e);
            },
        }
    } else if str_eq(key, "memory_used") {
        match string_to_i64(value) {
            Ok(v) => st.memory_used = v,
            Err(e) => {
                return Err(e);
            },
        }
    } else if str_eq(key, "exit_code") {
        match string_to_i64(value) {
            Ok(v) => st.exit_code = v,
            Err(e) => {
                return Err(e);
            },
        }
    } else if str_eq(key, "status") {
        match string_to_i64(value) {
            Ok(v) => st.status = v,
            Err(e) => {
                return Err(e);
            },
        }
    } else if str_eq(key, "signal") {
        match string_to_i64(value) {
            Ok(v) => st.signal = v,
            Err(e) => {
                return Err(e);
            },
        }
    }
    Ok(())
}

/// Parses the newline-separated `key = value` result file the sandbox
/// helper writes, into the exit data of the sandboxed process.  Unknown
/// keys and lines without an equals sign are ignored.
pub fn parse_exit_status(text: &str) -> (res: Result<ProcessExitStatus, Error>)
    ensures
        match res {
            Ok(st) => spec_parse_result(text@) == ParseOutcome::Parsed(st),
            Err(Error::StringSplitError) => spec_parse_result(text@) == ParseOutcome::SplitError,
            Err(Error::StringToIntError(m)) => spec_parse_result(text@) == ParseOutcome::IntError(
                m@,
            ),
            Err(_) => false,
        },
{
    let lines = split_string(text, '\n');
    let ghost gl = lines@.map_values(|t: String| t@);
    let mut st = ProcessExitStatus {
        time_used: 0,
        memory_used: 0,
        exit_code: 0,
        status: 0,
        signal: 0,
    };
    let mut li: usize = 0;
    proof {
        assert(gl.skip(0) =~= gl);
    }
    while li < lines.len()
        invariant
            gl == lines@.map_values(|t: String| t@),
            gl == split_chars(text@, '\n'),
            li <= lines@.len(),
            spec_parse_result(text@) == spec_parse_lines(st, gl.skip(li as int)),
        decreases lines@.len() - li,
    {
        let ghost st0 = st;
        let r = apply_line(&mut st, lines[li].as_str());
        proof {
            assert(gl.skip(li as int)[0] == gl[li as int]);
            assert(gl.skip(li as int).skip(1) =~= gl.skip(li as int + 1));
            assert(gl[li as int] == lines@[li as int]@);
        }
        match r {
            Ok(()) => {},
            Err(e) => {
                return Err(e);
            },
        }
        li = li + 1;
    }
    proof {
        assert(gl.skip(lines@.len() as int) =~= Seq::<Seq<char>>::empty());
    }
    Ok(st)
}

} // verus!
