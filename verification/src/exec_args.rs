//! Tokenization of a command string for `execve`: the command is split on
//! whitespace into a non-empty token vector whose first token is the
//! program path.  The C-string buffers and the call itself are host
//! plumbing and live outside the library.

use vstd::prelude::*;

verus! {

use crate::error::Error;

/// An ASCII whitespace character, as the command splitter sees it.
pub open spec fn is_space(c: char) -> bool {
    c == ' ' || c == '\t' || c == '\n' || c == '\r'
}

/// Index of the first whitespace character at or after `j`, or `s.len()`.
pub open spec fn first_space(v: Seq<char>, j: int) -> int
    decreases v.len() - j,
{
    if j < 0 || j >= v.len() {
        v.len() as int
    } else if is_space(v[j]) {
        j
    } else {
        first_space(v, j + 1)
    }
}

/// The whitespace-separated tokens of `s`: its maximal runs of
/// non-whitespace characters, in order.
pub open spec fn spec_tokens(s: Seq<char>) -> Seq<Seq<char>>
    decreases s.len(),
    via spec_tokens_decreases
{
    if s.len() == 0 {
        Seq::empty()
    } else if is_space(s[0]) {
        spec_tokens(s.skip(1))
    } else {
        let e = first_space(s, 0);
        seq![s.take(e)] + spec_tokens(s.skip(e))
    }
}

#[via_fn]
proof fn spec_tokens_decreases(s: Seq<char>) {
    if s.len() > 0 && !is_space(s[0]) {
        lemma_first_space(s, 0);
    }
}

proof fn lemma_first_space(v: Seq<char>, j: int)
    requires
        0 <= j <= v.len(),
    ensures
        j <= first_space(v, j) <= v.len(),
        first_space(v, j) < v.len() ==> is_space(v[first_space(v, j)]),
        forall|p: int| j <= p < first_space(v, j) ==> !is_space(#[trigger] v[p]),
    decreases v.len() - j,
{
    if j < v.len() && !is_space(v[j]) {
        lemma_first_space(v, j + 1);
    }
}

/// Unfolds `spec_tokens` of a suffix at a whitespace character: a leading
/// space carries no token.
proof fn lemma_tokens_skip_space(v: Seq<char>, i: int)
    requires
        0 <= i < v.len(),
        is_space(v[i]),
    ensures
        spec_tokens(v.skip(i)) == spec_tokens(v.skip(i + 1)),
{
    assert(v.skip(i)[0] == v[i]);
    assert(v.skip(i).skip(1) =~= v.skip(i + 1));
}

/// Unfolds `spec_tokens` of a suffix at a token: the token runs to the
/// next whitespace character.
proof fn lemma_tokens_step(v: Seq<char>, i: int, e: int)
    requires
        0 <= i <= e <= v.len(),
        i < v.len(),
        !is_space(v[i]),
        forall|p: int| i <= p < e ==> !is_space(#[trigger] v[p]),
        e == v.len() || is_space(v[e]),
    ensures
        spec_tokens(v.skip(i)) == seq![v.subrange(i, e)] + spec_tokens(v.skip(e)),
{
    let s = v.skip(i);
    assert(s[0] == v[i]);
    assert forall|p: int| 0 <= p < e - i implies !is_space(#[trigger] s[p]) by {
        assert(s[p] == v[i + p]);
    }
    lemma_first_space_at(s, 0, e - i);
    assert(s.take(e - i) =~= v.subrange(i, e));
    assert(s.skip(e - i) =~= v.skip(e));
}

proof fn lemma_first_space_at(s: Seq<char>, a: int, j: int)
    requires
        0 <= a <= j <= s.len(),
        forall|p: int| a <= p < j ==> !is_space(#[trigger] s[p]),
        j == s.len() || is_space(s[j]),
    ensures
        first_space(s, a) == j,
    decreases j - a,
{
    if a < j {
        lemma_first_space_at(s, a + 1, j);
    }
}

/// Splits a string into its whitespace-separated tokens: maximal runs of
/// non-whitespace characters, exactly `spec_tokens`.
pub fn tokenize(s: &str) -> (tokens: Vec<String>)
    ensures
        tokens@.map_values(|t: String| t@) == spec_tokens(s@),
{
    let n = s.unicode_len();
    let mut tokens: Vec<String> = Vec::new();
    let ghost mut done: Seq<Seq<char>> = Seq::empty();
    let mut i: usize = 0;
    proof {
        assert(s@.skip(0) =~= s@);
        assert(done + spec_tokens(s@) =~= spec_tokens(s@));
    }
    while i < n
        invariant
            n == s@.len(),
            i <= n,
            spec_tokens(s@) == done + spec_tokens(s@.skip(i as int)),
            tokens@.map_values(|t: String| t@) == done,
        decreases n - i,
    {
        let c = s.get_char(i);
        if c == ' ' || c == '\t' || c == '\n' || c == '\r' {
            proof {
                lemma_tokens_skip_space(s@, i as int);
            }
            i = i + 1;
        } else {
            let mut e = i;
            while e < n
                invariant
                    n == s@.len(),
                    i <= e <= n,
                    forall|p: int| i <= p < e ==> !is_space(#[trigger] s@[p]),
                ensures
                    i <= e <= n,
                    forall|p: int| i <= p < e ==> !is_space(#[trigger] s@[p]),
                    e < n ==> is_space(s@[e as int]),
                decreases n - e,
            {
                let d = s.get_char(e);
                if d == ' ' || d == '\t' || d == '\n' || d == '\r' {
                    break;
                }
                e = e + 1;
            }
            proof {
                lemma_tokens_step(s@, i as int, e as int);
            }
            let tok = s.substring_char(i, e);
            tokens.push(tok.to_owned());
            proof {
                done = done.push(s@.subrange(i as int, e as int));
                assert(tokens@.map_values(|t: String| t@) =~= done);
                assert(spec_tokens(s@) =~= done + spec_tokens(s@.skip(e as int)));
            }
            i = e;
        }
    }
    proof {
        assert(spec_tokens(s@.skip(n as int)) =~= Seq::<Seq<char>>::empty());
        assert(spec_tokens(s@) =~= done);
    }
    tokens
}

/// Splits a command string into its whitespace-separated tokens, checked
/// for `execve`: the split must produce at least one token, and no token
/// may hold an interior NUL byte.
pub fn build_tokens(cmd: &String) -> (res: Result<Vec<String>, Error>)
    ensures
        match res {
            Ok(tokens) => {
                &&& tokens@.map_values(|t: String| t@) == spec_tokens(cmd@)
                &&& spec_tokens(cmd@).len() > 0
                &&& forall|i: int, j: int|
                    0 <= i < spec_tokens(cmd@).len() && 0 <= j < spec_tokens(cmd@)[i].len()
                        ==> #[trigger] spec_tokens(cmd@)[i][j] != '\0'
            },
            Err(Error::BadCommand) => spec_tokens(cmd@).len() == 0,
            Err(Error::NullInString(m)) => m@ == cmd@ && exists|i: int, j: int|
                0 <= i < spec_tokens(cmd@).len() && 0 <= j < spec_tokens(cmd@)[i].len()
                    && #[trigger] spec_tokens(cmd@)[i][j] == '\0',
            Err(_) => false,
        },
{
    let tokens = tokenize(cmd.as_str());
    if tokens.len() == 0 {
        return Err(Error::BadCommand);
    }
    let mut x: usize = 0;
    while x < tokens.len()
        invariant
            tokens@.map_values(|t: String| t@) == spec_tokens(cmd@),
            x <= tokens@.len(),
            forall|a: int, b: int|
                0 <= a < x && 0 <= b < spec_tokens(cmd@)[a].len() ==> #[trigger] spec_tokens(
                    cmd@,
                )[a][b] != '\0',
        decreases tokens@.len() - x,
    {
        let t = tokens[x].as_str();
        let ghost tv = spec_tokens(cmd@)[x as int];
        proof {
            assert(tv == tokens@.map_values(|t: String| t@)[x as int]);
            assert(t@ == tv);
        }
        let m = t.unicode_len();
        let mut j: usize = 0;
        while j < m
            invariant
                m == t@.len(),
                t@ == tv,
                j <= m,
                forall|q: int| 0 <= q < j ==> #[trigger] tv[q] != '\0',
            ensures
                t@ == tv,
                j <= m,
                forall|q: int| 0 <= q < j ==> #[trigger] tv[q] != '\0',
                j < m ==> tv[j as int] == '\0',
            decreases m - j,
        {
            if t.get_char(j) == '\0' {
                break;
            }
            j = j + 1;
        }
        if j < m {
            proof {
                assert(spec_tokens(cmd@)[x as int][j as int] == '\0');
            }
            return Err(Error::NullInString(cmd.clone()));
        }
        proof {
            assert(forall|q: int| 0 <= q < tv.len() ==> #[trigger] tv[q] != '\0');
            assert forall|a: int, b: int|
                0 <= a < x + 1 && 0 <= b < spec_tokens(cmd@)[a].len() implies #[trigger] spec_tokens(
                cmd@,
            )[a][b] != '\0' by {
                if a == x {
                    assert(tv[b] != '\0');
                }
            }
        }
        x = x + 1;
    }
    Ok(tokens)
}

} // verus!
