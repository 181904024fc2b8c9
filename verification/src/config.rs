//! Read-only judge configuration: directory roots, the language-command
//! registry, and the fixed file names used inside a workspace.

use vstd::prelude::*;

verus! {

use crate::sandbox::str_eq;

pub const STDIN_FILENAME: &'static str = "stdin.txt";

pub const STDOUT_FILENAME: &'static str = "stdout.txt";

pub const STDERR_FILENAME: &'static str = "stderr.txt";

pub const RESULT_FILENAME: &'static str = "result.txt";

pub const SPJ_FILENAME: &'static str = "spj";

pub const SPJ_INPUT_FILENAME: &'static str = "spj_input.txt";

pub const SPJ_ANSWER_FILENAME: &'static str = "spj_answer.txt";

pub const SPJ_STDOUT_FILENAME: &'static str = "spj_stdout.txt";

pub const SPJ_STDERR_FILENAME: &'static str = "spj_stderr.txt";

pub const SPJ_RESULT_FILENAME: &'static str = "spj_result.txt";

/// How one language is compiled and run.
pub struct LanguageConf {
    pub compile_cmd: String,
    pub code_file: String,
    pub run_cmd: String,
    pub version: String,
}

/// The judge's configuration, loaded once and read-only afterwards.  The
/// language registry maps a language name to its commands; lookups return
/// the first entry with a matching name.
pub struct Config {
    pub data_dir: String,
    pub judge_dir: String,
    pub rootfs: String,
    pub cgroup: bool,
    pub languages: Vec<(String, LanguageConf)>,
}

impl Config {
    /// A well-formed registry names each language once, as the map it
    /// stands for guarantees; lookups then have a single possible answer.
    pub open spec fn wf(&self) -> bool {
        forall|i: int, j: int|
            0 <= i < j < self.languages@.len() ==> (#[trigger] self.languages@[i].0)@ != (
            #[trigger] self.languages@[j].0)@
    }
}

/// Index of the first registry entry named `name`, or the registry's length.
pub open spec fn spec_language_index(langs: Seq<(String, LanguageConf)>, name: Seq<char>) -> int
    decreases langs.len(),
{
    if langs.len() == 0 {
        0
    } else if langs[0].0@ == name {
        0
    } else {
        1 + spec_language_index(langs.skip(1), name)
    }
}

impl Config {
    /// Looks a language up by name: the first entry with that name, or
    /// nothing when the registry holds none.
    pub fn language(&self, name: &str) -> (res: Option<&LanguageConf>)
        ensures
            ({
                let i = spec_language_index(self.languages@, name@);
                match res {
                    Some(lang) => i < self.languages@.len() && lang == &self.languages@[i].1
                        && self.languages@[i].0@ == name@ && (self.wf() ==> forall|k: int|
                        0 <= k < self.languages@.len() && (#[trigger] self.languages@[k].0)@
                            == name@ ==> k == i),
                    None => i == self.languages@.len() && forall|k: int|
                        0 <= k < self.languages@.len() ==> (#[trigger] self.languages@[k].0)@
                            != name@,
                }
            }),
    {
        let n = self.languages.len();
        let mut k: usize = 0;
        proof {
            assert(self.languages@.skip(0) =~= self.languages@);
        }
        while k < n
            invariant
                n == self.languages@.len(),
                k <= n,
                spec_language_index(self.languages@, name@) == k + spec_language_index(
                    self.languages@.skip(k as int),
                    name@,
                ),
                forall|p: int| 0 <= p < k ==> (#[trigger] self.languages@[p].0)@ != name@,
            ensures
                k <= n,
                spec_language_index(self.languages@, name@) == k + spec_language_index(
                    self.languages@.skip(k as int),
                    name@,
                ),
                forall|p: int| 0 <= p < k ==> (#[trigger] self.languages@[p].0)@ != name@,
                k < n ==> self.languages@[k as int].0@ == name@,
            decreases n - k,
        {
            proof {
                assert(self.languages@.skip(k as int)[0] == self.languages@[k as int]);
                assert(self.languages@.skip(k as int).skip(1) =~= self.languages@.skip(
                    k as int + 1,
                ));
            }
            if str_eq(self.languages[k].0.as_str(), name) {
                break;
            }
            k = k + 1;
        }
        if k < n {
            proof {
                if self.wf() {
                    assert forall|p: int|
                        0 <= p < self.languages@.len() && (#[trigger] self.languages@[p].0)@
                            == name@ implies p == k as int by {
                        if p < k {
                            assert((self.languages@[p].0)@ != name@);
                        }
                    }
                }
            }
            Some(&self.languages[k].1)
        } else {
            proof {
                assert(self.languages@.skip(n as int) =~= Seq::<(String, LanguageConf)>::empty());
            }
            None
        }
    }
}

} // verus!
