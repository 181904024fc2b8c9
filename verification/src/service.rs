//! The per-stream judging state machine and the process-wide CPU gate.
//!
//! A client stream is a sequence of compile and judge requests.  `Session`
//! holds the state the stream accumulates; `plan` decides, without
//! touching the host, what the handler must do for one request — in
//! particular, a judge request before a successful compile is rejected
//! outright and never reaches a sandbox.  `CpuGate` counts the sandboxes
//! running at once and never hands out more permits than it has.

use vstd::assert_by_contradiction;
use vstd::prelude::*;

verus! {

use crate::error::Error;
use crate::result::{JudgeResponse, JudgeResultEnum, State};

/// One request on a judging stream.
pub enum Data {
    CompileData { language: String, code: String },
    JudgeData {
        in_file: String,
        out_file: String,
        spj_file: String,
        time_limit: i32,
        memory_limit: i32,
        judge_type: i32,
    },
}

/// The envelope of one request; an absent payload is a protocol error.
pub struct JudgeRequest {
    pub data: Option<Data>,
}

/// The judging service itself; each client stream gets its own `Session`.
pub struct RiverService {}

/// What the stream handler accumulates across one client stream: the
/// language locked by the first compile request, and whether the latest
/// compile succeeded.
pub struct Session {
    pub language: String,
    pub compile_success: bool,
}

/// What the stream handler must do for one request.
pub enum Plan {
    Compile { language: String, code: String },
    Run {
        in_file: String,
        out_file: String,
        spj_file: String,
        time_limit: i32,
        memory_limit: i32,
        judge_type: i32,
    },
    Reject(Error),
}

/// A run may be planned only after a successful compile.
pub open spec fn spec_ready(s: Session) -> bool {
    s.language@.len() > 0 && s.compile_success
}

impl Session {
    /// A fresh stream: no language locked, nothing compiled.
    pub fn new() -> (s: Session)
        ensures
            s.language@.len() == 0,
            !s.compile_success,
            !spec_ready(s),
    {
        Session { language: String::new(), compile_success: false }
    }

    /// Decides one request.  A compile request is always carried out; a
    /// judge request is carried out only when a compile has succeeded and
    /// is otherwise rejected without any sandbox being involved; an empty
    /// request is a protocol error.
    pub fn plan(&self, req: &JudgeRequest) -> (p: Plan)
        ensures
            ({
                match req.data {
                    Some(Data::CompileData { ref language, ref code }) => p matches Plan::Compile {
                        language: l,
                        code: c,
                    } && l == *language && c == *code,
                    Some(Data::JudgeData {
                        ref in_file,
                        ref out_file,
                        ref spj_file,
                        time_limit,
                        memory_limit,
                        judge_type,
                    }) => if spec_ready(*self) {
                        p matches Plan::Run {
                            in_file: i,
                            out_file: o,
                            spj_file: s,
                            time_limit: t,
                            memory_limit: m,
                            judge_type: j,
                        } && i == *in_file && o == *out_file && s == *spj_file && t == time_limit
                            && m == memory_limit && j == judge_type
                    } else {
                        (p matches Plan::Reject(Error::CustomError(m)) && m@ == "not compiled"@)
                            && !(p is Run)
                    },
                    None => p matches Plan::Reject(Error::CustomError(m)) && m@
                        == "unrecognized request types"@,
                }
            }),
    {
        match &req.data {
            Some(Data::CompileData { language, code }) => Plan::Compile {
                language: language.clone(),
                code: code.clone(),
            },
            Some(
                Data::JudgeData { in_file, out_file, spj_file, time_limit, memory_limit, judge_type },
            ) => {
                if self.language.as_str().is_empty() || !self.compile_success {
                    Plan::Reject(Error::CustomError("not compiled".to_owned()))
                } else {
                    Plan::Run {
                        in_file: in_file.clone(),
                        out_file: out_file.clone(),
                        spj_file: spj_file.clone(),
                        time_limit: *time_limit,
                        memory_limit: *memory_limit,
                        judge_type: *judge_type,
                    }
                }
            },
            None => Plan::Reject(Error::CustomError("unrecognized request types".to_owned())),
        }
    }

    /// Records the outcome of a compile step: the first compile locks the
    /// stream's language, and the success flag tracks exactly whether the
    /// latest compile reported success.
    pub fn record_compile(&mut self, language: &String, response: &JudgeResponse)
        ensures
            final(self).language@ == if old(self).language@.len() == 0 {
                language@
            } else {
                old(self).language@
            },
            final(self).compile_success == (response.state matches Some(State::Result(jr))
                && jr.result == JudgeResultEnum::CompileSuccess),
    {
        if self.language.as_str().is_empty() {
            self.language = language.clone();
        }
        self.compile_success = match &response.state {
            Some(State::Result(jr)) => jr.result == JudgeResultEnum::CompileSuccess,
            _ => false,
        };
    }
}

/// Name of the input file of test case `n`.
pub open spec fn spec_case_in(n: int) -> Seq<char> {
    "data"@ + crate::sandbox::spec_i64_string(n) + ".in"@
}

/// Name of the answer file of test case `n`.
pub open spec fn spec_case_out(n: int) -> Seq<char> {
    "data"@ + crate::sandbox::spec_i64_string(n) + ".out"@
}

/// `name` occurs in the file list.
pub open spec fn spec_has_file(files: Seq<Seq<char>>, name: Seq<char>) -> bool {
    exists|i: int| 0 <= i < files.len() && files[i] == name
}

/// Both files of test case `n` are present.
pub open spec fn spec_has_case(files: Seq<Seq<char>>, n: int) -> bool {
    spec_has_file(files, spec_case_in(n)) && spec_has_file(files, spec_case_out(n))
}

/// The first `cases.len()` test cases exist and are listed in order
/// under their own file names.
pub open spec fn spec_cases_listed(files: Seq<Seq<char>>, cases: Seq<(String, String)>) -> bool
    decreases cases.len(),
{
    if cases.len() == 0 {
        true
    } else {
        let n = cases.len() as int;
        &&& spec_cases_listed(files, cases.drop_last())
        &&& spec_has_case(files, n)
        &&& cases.last().0@ == spec_case_in(n)
        &&& cases.last().1@ == spec_case_out(n)
    }
}

proof fn lemma_cases_push(
    files: Seq<Seq<char>>,
    cases: Seq<(String, String)>,
    x: (String, String),
    n: int,
)
    requires
        spec_cases_listed(files, cases),
        n == cases.len() + 1,
        x.0@ == spec_case_in(n),
        x.1@ == spec_case_out(n),
        spec_has_case(files, n),
    ensures
        spec_cases_listed(files, cases.push(x)),
{
    let pushed = cases.push(x);
    assert(pushed.drop_last() =~= cases);
    assert(pushed.last() == x);
}

/// Whether `name` occurs in the list of file names.
fn contains_name(files: &Vec<String>, name: &String) -> (r: bool)
    ensures
        r == spec_has_file(files@.map_values(|t: String| t@), name@),
{
    let ghost fview = files@.map_values(|t: String| t@);
    let n = files.len();
    let mut i: usize = 0;
    while i < n
        invariant
            fview == files@.map_values(|t: String| t@),
            n == files@.len(),
            i <= n,
            forall|p: int| 0 <= p < i ==> #[trigger] fview[p] != name@,
        decreases n - i,
    {
        if crate::sandbox::str_eq(files[i].as_str(), name.as_str()) {
            proof {
                assert(fview[i as int] == name@);
            }
            return true;
        }
        i = i + 1;
    }
    proof {
        assert_by_contradiction!(!spec_has_file(fview, name@), {
            let w = choose|w: int| 0 <= w < fview.len() && fview[w] == name@;
            assert(fview[w] != name@);
        });
    }
    false
}

fn case_name(n: u64, suffix: &str) -> (r: String)
    ensures
        r@ == "data"@ + crate::sandbox::spec_i64_string(n as int) + suffix@,
{
    let mut r = "data".to_owned();
    r.append(crate::sandbox::uint_to_string(n).as_str());
    r.append(suffix);
    r
}

/// Enumerates a problem's test cases from its directory listing: pairs
/// `data<N>.in` / `data<N>.out`, counted from one until the first number
/// with either file missing.  The count cannot exceed the number of
/// files, so the scan stops there at the latest.
pub fn list_cases(files: &Vec<String>) -> (cases: Vec<(String, String)>)
    ensures
        spec_cases_listed(files@.map_values(|t: String| t@), cases@),
        cases@.len() <= files@.len(),
        cases@.len() < files@.len() ==> !spec_has_case(
            files@.map_values(|t: String| t@),
            cases@.len() as int + 1,
        ),
{
    let ghost fview = files@.map_values(|t: String| t@);
    let mut cases: Vec<(String, String)> = Vec::new();
    let mut idx: usize = 0;
    while idx < files.len()
        invariant_except_break
            idx == cases@.len(),
        invariant
            fview == files@.map_values(|t: String| t@),
            cases@.len() <= files@.len(),
            idx <= files@.len(),
            spec_cases_listed(fview, cases@),
        ensures
            cases@.len() <= files@.len(),
            cases@.len() < files@.len() ==> !spec_has_case(fview, cases@.len() as int + 1),
        decreases files@.len() - idx,
    {
        let n = idx as u64 + 1;
        let name_in = case_name(n, ".in");
        let name_out = case_name(n, ".out");
        if contains_name(files, &name_in) && contains_name(files, &name_out) {
            let ghost prev = cases@;
            let ghost x = (name_in, name_out);
            proof {
                lemma_cases_push(fview, prev, x, n as int);
            }
            cases.push((name_in, name_out));
            idx = idx + 1;
        } else {
            proof {
                assert(!spec_has_case(fview, n as int));
            }
            break;
        }
    }
    cases
}

/// The process-wide cap on simultaneously live sandbox runs.
pub struct CpuGate {
    pub capacity: usize,
    pub in_use: usize,
}

impl CpuGate {
    /// No more permits than `capacity` are ever out at once.
    pub open spec fn inv(&self) -> bool {
        self.in_use <= self.capacity
    }

    /// A gate sized to the machine, with no permit out.
    pub fn new(capacity: usize) -> (g: CpuGate)
        ensures
            g.capacity == capacity,
            g.in_use == 0,
            g.inv(),
    {
        CpuGate { capacity, in_use: 0 }
    }

    /// Takes a permit when one is free; full means none is handed out.
    pub fn try_acquire(&mut self) -> (got: bool)
        requires
            old(self).inv(),
        ensures
            final(self).inv(),
            final(self).capacity == old(self).capacity,
            got ==> old(self).in_use < old(self).capacity && final(self).in_use == old(
                self,
            ).in_use + 1,
            !got ==> old(self).in_use == old(self).capacity && final(self).in_use == old(
                self,
            ).in_use,
    {
        if self.in_use < self.capacity {
            self.in_use = self.in_use + 1;
            true
        } else {
            false
        }
    }

    /// Returns a permit.
    pub fn release(&mut self)
        requires
            old(self).inv(),
            old(self).in_use > 0,
        ensures
            final(self).inv(),
            final(self).capacity == old(self).capacity,
            final(self).in_use == old(self).in_use - 1,
    {
        self.in_use = self.in_use - 1;
    }
}

/// Concurrency bound: a well-formed gate never has more permits out than
/// its capacity, and every gate operation preserves well-formedness — so
/// the count of simultaneously live sandbox runs never exceeds the
/// configured cap.
pub proof fn lemma_gate_bounded(g: CpuGate)
    requires
        g.inv(),
    ensures
        g.in_use <= g.capacity,
{
}

} // verus!
