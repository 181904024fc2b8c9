//! Verdict construction and whitespace-tolerant output comparison.
//!
//! The comparison walks both byte buffers line by line, skips lines that are
//! entirely whitespace, right-trims every remaining line and compares the
//! trimmed lines byte for byte.  Its mathematical model is `canon`: the
//! sequence of right-trimmed, non-blank lines of a buffer.  Two outputs are
//! accepted exactly when their canonical line sequences are equal.

use vstd::prelude::*;

verus! {

use crate::is_ws;

/// `s` without its trailing whitespace bytes.
pub open spec fn rtrim(s: Seq<u8>) -> Seq<u8>
    decreases s.len(),
{
    if s.len() > 0 && is_ws(s.last()) {
        rtrim(s.drop_last())
    } else {
        s
    }
}

/// Index of the first line feed in `s`, or `s.len()` if there is none.
pub open spec fn first_nl(s: Seq<u8>) -> nat
    decreases s.len(),
{
    if s.len() == 0 {
        0
    } else if s[0] == 10 {
        0
    } else {
        1 + first_nl(s.skip(1))
    }
}

/// The canonical form of a buffer: its lines, each right-trimmed, with
/// fully-blank lines removed.
pub open spec fn canon(s: Seq<u8>) -> Seq<Seq<u8>>
    decreases s.len(),
{
    if s.len() == 0 {
        Seq::empty()
    } else {
        let i = first_nl(s) as int;
        if i < s.len() {
            let line = rtrim(s.take(i));
            let rest = canon(s.skip(i + 1));
            if line.len() == 0 {
                rest
            } else {
                seq![line] + rest
            }
        } else {
            let line = rtrim(s);
            if line.len() == 0 {
                Seq::empty()
            } else {
                seq![line]
            }
        }
    }
}

/// Index of the first non-whitespace byte at or after `j`, or `v.len()`.
pub open spec fn first_content(v: Seq<u8>, j: int) -> int
    decreases v.len() - j,
{
    if j < 0 || j >= v.len() {
        v.len() as int
    } else if !is_ws(v[j]) {
        j
    } else {
        first_content(v, j + 1)
    }
}

/// Index of the first line feed at or after `j`, or `v.len()`.
pub open spec fn line_end(v: Seq<u8>, j: int) -> int
    decreases v.len() - j,
{
    if j < 0 || j >= v.len() {
        v.len() as int
    } else if v[j] == 10 {
        j
    } else {
        line_end(v, j + 1)
    }
}

/// One past the last line feed in `v[offset..j]`, or `0` if there is none.
pub open spec fn line_start(v: Seq<u8>, offset: int, j: int) -> int
    decreases j - offset,
{
    if j <= offset {
        0
    } else if v[j - 1] == 10 {
        j
    } else {
        line_start(v, offset, j - 1)
    }
}

/// `right`, moved down past trailing whitespace but never below `left`.
pub open spec fn trim_end(v: Seq<u8>, left: int, right: int) -> int
    decreases right - left,
{
    if right <= left {
        right
    } else if is_ws(v[right - 1]) {
        trim_end(v, left, right - 1)
    } else {
        right
    }
}

/// A reading position the line scanner may resume from: the start of the
/// buffer, or a position whose remaining bytes up to the next line feed are
/// all whitespace.
pub open spec fn aligned(v: Seq<u8>, offset: int) -> bool {
    offset == 0 || (forall|p: int| offset <= p < line_end(v, offset) ==> is_ws(#[trigger] v[p]))
}

proof fn lemma_first_content(v: Seq<u8>, j: int)
    requires
        0 <= j <= v.len(),
    ensures
        j <= first_content(v, j) <= v.len(),
        first_content(v, j) < v.len() ==> !is_ws(v[first_content(v, j)]),
        forall|p: int| j <= p < first_content(v, j) ==> is_ws(#[trigger] v[p]),
    decreases v.len() - j,
{
    if j < v.len() && is_ws(v[j]) {
        lemma_first_content(v, j + 1);
    }
}

proof fn lemma_line_end(v: Seq<u8>, j: int)
    requires
        0 <= j <= v.len(),
    ensures
        j <= line_end(v, j) <= v.len(),
        line_end(v, j) < v.len() ==> v[line_end(v, j)] == 10,
        forall|p: int| j <= p < line_end(v, j) ==> #[trigger] v[p] != 10,
    decreases v.len() - j,
{
    if j < v.len() && v[j] != 10 {
        lemma_line_end(v, j + 1);
    }
}

proof fn lemma_line_end_merge(v: Seq<u8>, l: int, m: int)
    requires
        0 <= l <= m <= v.len(),
        forall|p: int| l <= p < m ==> #[trigger] v[p] != 10,
    ensures
        line_end(v, l) == line_end(v, m),
    decreases m - l,
{
    if l < m {
        lemma_line_end_merge(v, l + 1, m);
    }
}

proof fn lemma_line_start(v: Seq<u8>, offset: int, j: int)
    requires
        0 <= offset <= j <= v.len(),
    ensures
        line_start(v, offset, j) == 0 || offset < line_start(v, offset, j) <= j,
        line_start(v, offset, j) > 0 ==> v[line_start(v, offset, j) - 1] == 10,
        forall|p: int|
            if line_start(v, offset, j) == 0 {
                offset
            } else {
                line_start(v, offset, j)
            } <= p < j ==> #[trigger] v[p] != 10,
    decreases j - offset,
{
    if j > offset && v[j - 1] != 10 {
        lemma_line_start(v, offset, j - 1);
    }
}

proof fn lemma_trim_end(v: Seq<u8>, left: int, right: int)
    requires
        0 <= left <= right <= v.len(),
    ensures
        left <= trim_end(v, left, right) <= right,
        forall|p: int| trim_end(v, left, right) <= p < right ==> is_ws(#[trigger] v[p]),
        trim_end(v, left, right) > left ==> !is_ws(v[trim_end(v, left, right) - 1]),
    decreases right - left,
{
    if right > left && is_ws(v[right - 1]) {
        lemma_trim_end(v, left, right - 1);
    }
}

proof fn lemma_rtrim_subrange(v: Seq<u8>, left: int, right: int)
    requires
        0 <= left <= right <= v.len(),
    ensures
        rtrim(v.subrange(left, right)) == v.subrange(left, trim_end(v, left, right)),
    decreases right - left,
{
    if right > left && is_ws(v[right - 1]) {
        assert(v.subrange(left, right).drop_last() =~= v.subrange(left, right - 1));
        lemma_rtrim_subrange(v, left, right - 1);
    }
}

proof fn lemma_rtrim_all_ws(s: Seq<u8>)
    requires
        forall|p: int| 0 <= p < s.len() ==> is_ws(#[trigger] s[p]),
    ensures
        rtrim(s).len() == 0,
    decreases s.len(),
{
    if s.len() > 0 {
        lemma_rtrim_all_ws(s.drop_last());
    }
}

proof fn lemma_first_nl_line_end(v: Seq<u8>, a: int)
    requires
        0 <= a <= v.len(),
    ensures
        first_nl(v.skip(a)) as int == line_end(v, a) - a,
    decreases v.len() - a,
{
    if a == v.len() {
    } else if v[a] == 10 {
    } else {
        assert(v.skip(a).skip(1) =~= v.skip(a + 1));
        lemma_first_nl_line_end(v, a + 1);
    }
}

/// Unfolds `canon` of a suffix of `v` by one line.
proof fn lemma_canon_unfold_line(v: Seq<u8>, a: int)
    requires
        0 <= a <= v.len(),
    ensures
        a == v.len() ==> canon(v.skip(a)) == Seq::<Seq<u8>>::empty(),
        a < v.len() && line_end(v, a) < v.len() ==> canon(v.skip(a)) == {
            let line = rtrim(v.subrange(a, line_end(v, a)));
            let rest = canon(v.skip(line_end(v, a) + 1));
            if line.len() == 0 {
                rest
            } else {
                seq![line] + rest
            }
        },
        a < v.len() && line_end(v, a) == v.len() ==> canon(v.skip(a)) == {
            let line = rtrim(v.subrange(a, v.len() as int));
            if line.len() == 0 {
                Seq::<Seq<u8>>::empty()
            } else {
                seq![line]
            }
        },
{
    lemma_line_end(v, a);
    lemma_first_nl_line_end(v, a);
    let s = v.skip(a);
    let le = line_end(v, a);
    if a < v.len() {
        let i = first_nl(s) as int;
        assert(i == le - a);
        if le < v.len() {
            assert(s.take(i) =~= v.subrange(a, le));
            assert(s.skip(i + 1) =~= v.skip(le + 1));
        } else {
            assert(s =~= v.subrange(a, v.len() as int));
        }
    }
}

/// `canon` of an all-whitespace suffix is empty.
proof fn lemma_canon_allws_tail(v: Seq<u8>, a: int)
    requires
        0 <= a <= v.len(),
        forall|p: int| a <= p < v.len() ==> is_ws(#[trigger] v[p]),
    ensures
        canon(v.skip(a)) == Seq::<Seq<u8>>::empty(),
    decreases v.len() - a,
{
    lemma_canon_unfold_line(v, a);
    lemma_line_end(v, a);
    if a < v.len() {
        let le = line_end(v, a);
        assert(forall|p: int|
            0 <= p < v.subrange(a, le).len() ==> is_ws(#[trigger] v.subrange(a, le)[p]));
        lemma_rtrim_all_ws(v.subrange(a, le));
        if le < v.len() {
            lemma_canon_allws_tail(v, le + 1);
        } else {
            assert(v.subrange(a, v.len() as int) =~= v.subrange(a, le));
        }
    }
}

/// Skipping a whitespace-only stretch that ends at a line boundary does not
/// change the canonical form.
proof fn lemma_canon_peel_blanks(v: Seq<u8>, a: int, l: int)
    requires
        0 <= a <= l <= v.len(),
        forall|p: int| a <= p < l ==> is_ws(#[trigger] v[p]),
        l == a || v[l - 1] == 10,
    ensures
        canon(v.skip(a)) == canon(v.skip(l)),
    decreases l - a,
{
    if a < l {
        let le = line_end(v, a);
        lemma_line_end(v, a);
        assert(v[l - 1] == 10);
        assert(le <= l - 1);
        lemma_canon_unfold_line(v, a);
        assert(forall|p: int|
            0 <= p < v.subrange(a, le).len() ==> is_ws(#[trigger] v.subrange(a, le)[p]));
        lemma_rtrim_all_ws(v.subrange(a, le));
        lemma_canon_peel_blanks(v, le + 1, l);
    }
}

/// One step of the line scanner, related to `canon`: from an aligned
/// position, the scanner's next line is the head of the canonical suffix and
/// the position it leaves behind is aligned again.
proof fn lemma_canon_step(v: Seq<u8>, offset: int)
    requires
        0 <= offset <= v.len(),
        aligned(v, offset),
    ensures
        first_content(v, offset) == v.len() ==> canon(v.skip(offset))
            == Seq::<Seq<u8>>::empty(),
        first_content(v, offset) < v.len() ==> {
            let fc = first_content(v, offset);
            let l = line_start(v, offset, fc);
            let r = trim_end(v, l, line_end(v, fc));
            &&& offset <= l <= fc < r <= line_end(v, fc) <= v.len()
            &&& canon(v.skip(offset)) == seq![v.subrange(l, r)] + canon(v.skip(r))
            &&& v.subrange(l, r).len() > 0
            &&& aligned(v, r)
        },
{
    let len = v.len() as int;
    let fc = first_content(v, offset);
    lemma_first_content(v, offset);
    if fc == len {
        lemma_canon_allws_tail(v, offset);
    } else {
        let l = line_start(v, offset, fc);
        let le = line_end(v, fc);
        let r = trim_end(v, l, le);
        lemma_line_start(v, offset, fc);
        lemma_line_end(v, fc);
        lemma_line_end(v, offset);
        // The line holding the first content starts at `l`, at or after
        // `offset`: an aligned interior position is inside the blank tail of
        // its line, so a line feed precedes the content.
        if l == 0 && offset > 0 {
            // aligned and offset > 0: all bytes up to line_end(v, offset) are
            // whitespace, so the first content lies beyond a line feed,
            // contradicting line_start == 0.
            let le0 = line_end(v, offset);
            if le0 < len {
                assert(is_ws(v[le0]));
                assert(fc > le0);
                assert(v[le0] == 10);
                assert(false);
            } else {
                assert(forall|p: int| offset <= p < len ==> is_ws(#[trigger] v[p]));
                assert(false);
            }
        }
        assert(l == offset || (l > offset && v[l - 1] == 10));
        lemma_canon_peel_blanks(v, offset, l);
        lemma_line_end_merge(v, l, fc);
        lemma_canon_unfold_line(v, l);
        lemma_rtrim_subrange(v, l, le);
        lemma_trim_end(v, l, le);
        assert(fc < r);
        if le < len {
            lemma_canon_peel_blanks(v, r, le + 1);
        } else {
            lemma_canon_allws_tail(v, r);
            assert(canon(v.skip(r)) == Seq::<Seq<u8>>::empty());
        }
        lemma_line_end_merge(v, r, le);
    }
}

/// Reads the next non-blank line at or after `offset`, as the half-open byte
/// range `[l, r)` with its trailing whitespace removed, together with a flag
/// that says whether any non-whitespace byte was found.  Blank lines between
/// `offset` and the returned line are skipped.
pub fn next_line(v: &[u8], offset: usize, len: usize) -> (res: (usize, usize, bool))
    requires
        len == v@.len(),
        offset <= len,
    ensures
        ({
            let fc = first_content(v@, offset as int);
            let bound = if fc < len { fc } else { len as int };
            let le = if fc < len { line_end(v@, fc) } else { len as int };
            &&& res.2 == (fc < len)
            &&& res.0 == line_start(v@, offset as int, bound)
            &&& res.1 == trim_end(v@, res.0 as int, le)
            &&& res.0 <= res.1 <= len
        }),
{
    proof {
        lemma_first_content(v@, offset as int);
    }
    let ghost fc = first_content(v@, offset as int);
    let mut line_offset = offset;
    let mut left: usize = 0;
    let mut right: usize = len;
    let mut has_line = false;
    while line_offset < len
        invariant_except_break
            len == v@.len(),
            offset <= line_offset <= len,
            right == len,
            has_line == (fc < line_offset),
            fc == first_content(v@, offset as int),
            !has_line ==> left == line_start(v@, offset as int, line_offset as int),
            has_line ==> left == line_start(v@, offset as int, fc),
            has_line ==> forall|p: int| fc <= p < line_offset ==> #[trigger] v@[p] != 10,
            left <= line_offset,
        ensures
            len == v@.len(),
            has_line == (fc < len),
            left == line_start(v@, offset as int, if fc < len { fc } else { len as int }),
            fc < len ==> right == line_end(v@, fc) || (right == len && forall|p: int|
                fc <= p < len ==> #[trigger] v@[p] != 10),
            fc >= len ==> right == len,
            left <= right <= len,
        decreases len - line_offset,
    {
        proof {
            lemma_first_content(v@, offset as int);
            lemma_line_start(v@, offset as int, line_offset as int);
        }
        let ch = v[line_offset];
        if ch == 10 {
            if has_line {
                right = line_offset;
                proof {
                    lemma_line_end_merge(v@, fc, line_offset as int);
                }
                break;
            } else {
                left = line_offset + 1;
            }
        }
        if ch == 32 || ch == 9 || ch == 10 || ch == 13 {
        } else {
            has_line = true;
        }
        line_offset = line_offset + 1;
    }
    proof {
        if has_line {
            lemma_line_end(v@, fc);
            lemma_line_end_merge(v@, fc, right as int);
        }
        lemma_line_start(v@, offset as int, if fc < len {
            fc
        } else {
            len as int
        });
    }
    let ghost right0 = right as int;
    while left < right
        invariant_except_break
            len == v@.len(),
            left <= right <= len,
            trim_end(v@, left as int, right0) == trim_end(v@, left as int, right as int),
        ensures
            right == trim_end(v@, left as int, right0),
            left <= right <= len,
        decreases right - left,
    {
        let ch = v[right - 1];
        if ch == 32 || ch == 9 || ch == 10 || ch == 13 {
            right = right - 1;
        } else {
            break;
        }
    }
    (left, right, has_line)
}

/// The closed set of terminal verdict codes.
#[derive(Clone, Copy, Debug, PartialEq, Eq, Structural)]
pub enum JudgeResultEnum {
    Accepted,
    WrongAnswer,
    TimeLimitExceeded,
    MemoryLimitExceeded,
    RuntimeError,
    CompileError,
    CompileSuccess,
    SystemError,
}

/// What the comparison decides: Accepted exactly when the canonical
/// line sequences agree.  There is no presentation-error class; any
/// other difference is a wrong answer.
pub open spec fn spec_compare(a: Seq<u8>, b: Seq<u8>) -> JudgeResultEnum {
    if canon(a) == canon(b) {
        JudgeResultEnum::Accepted
    } else {
        JudgeResultEnum::WrongAnswer
    }
}

/// Comparing any output with itself accepts it: the canonical form of a
/// buffer is a function of the buffer alone.
pub proof fn lemma_compare_reflexive(a: Seq<u8>)
    ensures
        spec_compare(a, a) == JudgeResultEnum::Accepted,
{
}

/// The comparison is symmetric: swapping output and answer cannot change the
/// verdict.
pub proof fn lemma_compare_symmetric(a: Seq<u8>, b: Seq<u8>)
    ensures
        spec_compare(a, b) == spec_compare(b, a),
{
}

/// Buffers with the same canonical form compare alike against anything.
pub proof fn lemma_compare_same_canon(a: Seq<u8>, b: Seq<u8>, z: Seq<u8>)
    requires
        canon(a) == canon(b),
    ensures
        spec_compare(a, z) == spec_compare(b, z),
        spec_compare(z, a) == spec_compare(z, b),
{
}

proof fn lemma_first_nl_concat(x: Seq<u8>, w: Seq<u8>)
    requires
        forall|i: int| 0 <= i < x.len() ==> #[trigger] x[i] != 10,
    ensures
        first_nl(x + seq![10u8] + w) == x.len(),
    decreases x.len(),
{
    let s = x + seq![10u8] + w;
    if x.len() == 0 {
        assert(s[0] == 10);
    } else {
        assert(s[0] == x[0]);
        assert(s.skip(1) =~= x.skip(1) + seq![10u8] + w);
        lemma_first_nl_concat(x.skip(1), w);
    }
}

proof fn lemma_rtrim_push_ws(s: Seq<u8>, c: u8)
    requires
        is_ws(c),
    ensures
        rtrim(s.push(c)) == rtrim(s),
{
    assert(s.push(c).drop_last() =~= s);
}

/// Unfolds `canon` over one leading line: `x` holds no line feed, so the
/// canonical form of `x`, a line feed, then `w` is the trimmed `x` (if not
/// blank) followed by the canonical form of `w`.
proof fn lemma_canon_line_concat(x: Seq<u8>, w: Seq<u8>)
    requires
        forall|i: int| 0 <= i < x.len() ==> #[trigger] x[i] != 10,
    ensures
        canon(x + seq![10u8] + w) == if rtrim(x).len() == 0 {
            canon(w)
        } else {
            seq![rtrim(x)] + canon(w)
        },
{
    let s = x + seq![10u8] + w;
    lemma_first_nl_concat(x, w);
    assert(s.len() > 0);
    let i = first_nl(s) as int;
    assert(i == x.len() < s.len());
    assert(s.take(i) =~= x);
    assert(s.skip(i + 1) =~= w);
}

/// A whitespace byte other than a line feed, standing immediately before a
/// line feed, never changes the canonical form: trailing blanks on a line
/// are ignored, and a carriage-return line ending equals a bare line feed.
pub proof fn lemma_canon_trailing_ws(u: Seq<u8>, c: u8, w: Seq<u8>)
    requires
        is_ws(c),
        c != 10,
    ensures
        canon(u + seq![c, 10u8] + w) == canon(u + seq![10u8] + w),
    decreases u.len(),
{
    let k = first_nl(u) as int;
    if k >= u.len() {
        // `u` holds no line feed: both strings start with the same first
        // line, up to the trailing whitespace byte.
        assert(forall|i: int| 0 <= i < u.len() ==> #[trigger] u[i] != 10) by {
            lemma_first_nl_no_nl(u);
        }
        assert(u + seq![c, 10u8] + w =~= (u + seq![c]) + seq![10u8] + w);
        assert(forall|i: int| 0 <= i < (u + seq![c]).len() ==> #[trigger] (u + seq![c])[i] != 10);
        lemma_canon_line_concat(u + seq![c], w);
        lemma_canon_line_concat(u, w);
        assert(u + seq![c] =~= u.push(c));
        lemma_rtrim_push_ws(u, c);
    } else {
        // Peel the first line of `u`; it is identical on both sides.
        lemma_first_nl_props(u);
        let u1 = u.take(k);
        let u2 = u.skip(k + 1);
        assert(forall|i: int| 0 <= i < u1.len() ==> #[trigger] u1[i] != 10);
        assert(u + seq![c, 10u8] + w =~= u1 + seq![10u8] + (u2 + seq![c, 10u8] + w));
        assert(u + seq![10u8] + w =~= u1 + seq![10u8] + (u2 + seq![10u8] + w));
        lemma_canon_line_concat(u1, u2 + seq![c, 10u8] + w);
        lemma_canon_line_concat(u1, u2 + seq![10u8] + w);
        lemma_canon_trailing_ws(u2, c, w);
    }
}

/// A whitespace byte other than a line feed, appended at the very end of
/// the buffer, never changes the canonical form: the last line is
/// right-trimmed whether or not a line feed closes it.
pub proof fn lemma_canon_trailing_ws_end(u: Seq<u8>, c: u8)
    requires
        is_ws(c),
        c != 10,
    ensures
        canon(u.push(c)) == canon(u),
    decreases u.len(),
{
    let k = first_nl(u) as int;
    if k >= u.len() {
        lemma_first_nl_no_nl(u);
        assert(forall|i: int| 0 <= i < u.push(c).len() ==> #[trigger] u.push(c)[i] != 10);
        lemma_first_nl_all(u.push(c));
        lemma_first_nl_all(u);
        lemma_rtrim_push_ws(u, c);
    } else {
        lemma_first_nl_props(u);
        let u1 = u.take(k);
        let u2 = u.skip(k + 1);
        assert(forall|i: int| 0 <= i < u1.len() ==> #[trigger] u1[i] != 10);
        assert(u.push(c) =~= u1 + seq![10u8] + u2.push(c));
        assert(u =~= u1 + seq![10u8] + u2);
        lemma_canon_line_concat(u1, u2.push(c));
        lemma_canon_line_concat(u1, u2);
        lemma_canon_trailing_ws_end(u2, c);
    }
}

proof fn lemma_first_nl_all(s: Seq<u8>)
    requires
        forall|i: int| 0 <= i < s.len() ==> #[trigger] s[i] != 10,
    ensures
        first_nl(s) == s.len(),
    decreases s.len(),
{
    if s.len() > 0 {
        assert(forall|i: int| 0 <= i < s.skip(1).len() ==> #[trigger] s.skip(1)[i] != 10);
        lemma_first_nl_all(s.skip(1));
    }
}

/// A fully blank line (whitespace then a line feed), inserted at the start
/// of the buffer or right after any line feed, never changes the canonical
/// form; removing one is the same equation read backwards.
pub proof fn lemma_canon_blank_line(u: Seq<u8>, b: Seq<u8>, w: Seq<u8>)
    requires
        u.len() == 0 || u.last() == 10,
        b.len() > 0,
        b.last() == 10,
        forall|i: int| 0 <= i < b.len() - 1 ==> is_ws(#[trigger] b[i]) && b[i] != 10,
    ensures
        canon(u + b + w) == canon(u + w),
    decreases u.len(),
{
    if u.len() == 0 {
        let b1 = b.drop_last();
        assert(u + b + w =~= b1 + seq![10u8] + w);
        assert(forall|i: int| 0 <= i < b1.len() ==> #[trigger] b1[i] != 10);
        lemma_canon_line_concat(b1, w);
        lemma_rtrim_all_ws(b1);
        assert(u + w =~= w);
    } else {
        let k = first_nl(u) as int;
        lemma_first_nl_props(u);
        assert(k < u.len()) by {
            if k >= u.len() {
                lemma_first_nl_no_nl(u);
                assert(u.last() != 10);
            }
        }
        let u1 = u.take(k);
        let u2 = u.skip(k + 1);
        assert(forall|i: int| 0 <= i < u1.len() ==> #[trigger] u1[i] != 10);
        assert(u + b + w =~= u1 + seq![10u8] + (u2 + b + w));
        assert(u + w =~= u1 + seq![10u8] + (u2 + w));
        lemma_canon_line_concat(u1, u2 + b + w);
        lemma_canon_line_concat(u1, u2 + w);
        if u2.len() > 0 {
            assert(u2.last() == u.last());
        }
        lemma_canon_blank_line(u2, b, w);
    }
}

proof fn lemma_first_nl_no_nl(s: Seq<u8>)
    requires
        first_nl(s) >= s.len(),
    ensures
        forall|i: int| 0 <= i < s.len() ==> #[trigger] s[i] != 10,
    decreases s.len(),
{
    if s.len() > 0 {
        assert(s[0] != 10);
        lemma_first_nl_no_nl(s.skip(1));
        assert forall|i: int| 0 <= i < s.len() implies #[trigger] s[i] != 10 by {
            if i >= 1 {
                assert(s.skip(1)[i - 1] != 10);
                assert(s[i] == s.skip(1)[i - 1]);
            }
        }
    }
}

proof fn lemma_first_nl_props(s: Seq<u8>)
    ensures
        first_nl(s) <= s.len(),
        first_nl(s) < s.len() ==> s[first_nl(s) as int] == 10,
        forall|i: int| 0 <= i < first_nl(s) ==> #[trigger] s[i] != 10,
    decreases s.len(),
{
    if s.len() > 0 && s[0] != 10 {
        lemma_first_nl_props(s.skip(1));
        assert forall|i: int| 0 <= i < first_nl(s) implies #[trigger] s[i] != 10 by {
            if i >= 1 {
                assert(s.skip(1)[i - 1] != 10);
                assert(s[i] == s.skip(1)[i - 1]);
            }
        }
    }
}

/// Whitespace-tolerant comparison of a program's output against the expected
/// answer: blank lines are ignored, every other line is right-trimmed and
/// compared byte for byte.
pub fn standard_result(out: &[u8], ans: &[u8]) -> (res: Result<JudgeResultEnum, crate::error::Error>)
    ensures
        res == Ok::<JudgeResultEnum, crate::error::Error>(spec_compare(out@, ans@)),
{
    let out_len = out.len();
    let ans_len = ans.len();
    let mut out_offset: usize = 0;
    let mut ans_offset: usize = 0;
    let mut r = JudgeResultEnum::Accepted;
    let ghost mut matched: Seq<Seq<u8>> = Seq::empty();
    proof {
        assert(out@.skip(0) =~= out@);
        assert(ans@.skip(0) =~= ans@);
        assert(matched + canon(out@) =~= canon(out@));
        assert(matched + canon(ans@) =~= canon(ans@));
    }
    while out_offset <= out_len && ans_offset <= ans_len
        invariant_except_break
            out_len == out@.len(),
            ans_len == ans@.len(),
            out_offset <= out_len,
            ans_offset <= ans_len,
            aligned(out@, out_offset as int),
            aligned(ans@, ans_offset as int),
            canon(out@) == matched + canon(out@.skip(out_offset as int)),
            canon(ans@) == matched + canon(ans@.skip(ans_offset as int)),
            r == JudgeResultEnum::Accepted,
        ensures
            r == spec_compare(out@, ans@),
        decreases out_len - out_offset,
    {
        proof {
            lemma_first_content(out@, out_offset as int);
            lemma_first_content(ans@, ans_offset as int);
            lemma_canon_step(out@, out_offset as int);
            lemma_canon_step(ans@, ans_offset as int);
        }
        let (out_start, out_end, out_exists) = next_line(out, out_offset, out_len);
        let (ans_start, ans_end, ans_exists) = next_line(ans, ans_offset, ans_len);
        if !out_exists || !ans_exists {
            if out_exists != ans_exists {
                r = JudgeResultEnum::WrongAnswer;
                proof {
                    assert(matched + Seq::<Seq<u8>>::empty() =~= matched);
                    if !out_exists {
                        assert(canon(out@).len() == matched.len());
                        assert(canon(ans@).len() >= matched.len() + 1);
                    } else {
                        assert(canon(ans@).len() == matched.len());
                        assert(canon(out@).len() >= matched.len() + 1);
                    }
                    assert(canon(out@) != canon(ans@));
                }
            } else {
                proof {
                    assert(matched + Seq::<Seq<u8>>::empty() =~= matched);
                    assert(canon(out@) == matched);
                    assert(canon(ans@) == matched);
                }
            }
            break;
        }
        let ghost lo = out@.subrange(out_start as int, out_end as int);
        let ghost la = ans@.subrange(ans_start as int, ans_end as int);
        proof {
            assert(canon(out@)[matched.len() as int] == lo);
            assert(canon(ans@)[matched.len() as int] == la);
        }
        if out_end - out_start != ans_end - ans_start {
            r = JudgeResultEnum::WrongAnswer;
            proof {
                assert(lo.len() != la.len());
                assert(canon(out@) != canon(ans@));
            }
            break;
        }
        let line_len = out_end - out_start;
        let mut mismatch = false;
        let mut i: usize = 0;
        while i < line_len
            invariant_except_break
                out_len == out@.len(),
                ans_len == ans@.len(),
                out_start + line_len == out_end <= out_len,
                ans_start + line_len == ans_end <= ans_len,
                i <= line_len,
                !mismatch,
                forall|p: int| 0 <= p < i ==> #[trigger] out@[out_start + p] == ans@[ans_start + p],
            ensures
                mismatch ==> out@[out_start + i] != ans@[ans_start + i] && i < line_len,
                !mismatch ==> forall|p: int|
                    0 <= p < line_len ==> #[trigger] out@[out_start + p] == ans@[ans_start + p],
            decreases line_len - i,
        {
            if out[out_start + i] != ans[ans_start + i] {
                mismatch = true;
                break;
            }
            i = i + 1;
        }
        if mismatch {
            r = JudgeResultEnum::WrongAnswer;
            proof {
                assert(lo[i as int] != la[i as int]);
                assert(canon(out@) != canon(ans@));
            }
            break;
        }
        proof {
            assert(lo.len() == la.len());
            assert forall|p: int| 0 <= p < lo.len() implies #[trigger] lo[p] == la[p] by {
                assert(out@[out_start + p] == ans@[ans_start + p]);
                assert(lo[p] == out@[out_start + p]);
                assert(la[p] == ans@[ans_start + p]);
            }
            assert(lo =~= la);
            matched = matched.push(lo);
            assert(canon(out@) =~~= matched + canon(out@.skip(out_end as int)));
            assert(canon(ans@) =~~= matched + canon(ans@.skip(ans_end as int)));
        }
        out_offset = out_end;
        ans_offset = ans_end;
    }
    Ok(r)
}

/// Stream status codes emitted before a terminal result.
#[derive(Clone, Copy, Debug, PartialEq, Eq, Structural)]
pub enum JudgeStatus {
    Pending,
    Running,
}

/// A terminal result event: verdict code, measured resources and messages.
pub struct JudgeResult {
    pub time_used: i64,
    pub memory_used: i64,
    pub result: JudgeResultEnum,
    pub errmsg: String,
    pub outmsg: String,
}

/// The payload of one response event on a judging stream.
pub enum State {
    Status(JudgeStatus),
    Result(JudgeResult),
}

/// One response event on a judging stream.
pub struct JudgeResponse {
    pub state: Option<State>,
}

/// `r` carries a terminal result with exactly these fields.
pub open spec fn is_result(
    r: JudgeResponse,
    time_used: i64,
    memory_used: i64,
    code: JudgeResultEnum,
    errmsg: Seq<char>,
    outmsg: Seq<char>,
) -> bool {
    &&& r.state matches Some(State::Result(jr))
    &&& jr.time_used == time_used
    &&& jr.memory_used == memory_used
    &&& jr.result == code
    &&& jr.errmsg@ == errmsg
    &&& jr.outmsg@ == outmsg
}

/// An internal error, reported to the user as a SystemError verdict carrying
/// the error's message and no resource figures.
pub fn system_error(err: crate::error::Error) -> (r: JudgeResponse)
    ensures
        is_result(r, 0, 0, JudgeResultEnum::SystemError, err.spec_message(), Seq::empty()),
{
    JudgeResponse {
        state: Some(State::Result(JudgeResult {
            time_used: 0,
            memory_used: 0,
            result: JudgeResultEnum::SystemError,
            errmsg: err.message(),
            outmsg: String::new(),
        })),
    }
}

/// The request was received and waits for a worker.
pub fn pending() -> (r: JudgeResponse)
    ensures
        r.state == Some(State::Status(JudgeStatus::Pending)),
{
    JudgeResponse { state: Some(State::Status(JudgeStatus::Pending)) }
}

/// The request is being executed.
pub fn running() -> (r: JudgeResponse)
    ensures
        r.state == Some(State::Status(JudgeStatus::Running)),
{
    JudgeResponse { state: Some(State::Status(JudgeStatus::Running)) }
}

/// The compiler rejected the submission; `errmsg` carries its output.
pub fn compile_failure(time_used: i64, memory_used: i64, errmsg: &str) -> (r: JudgeResponse)
    ensures
        is_result(r, time_used, memory_used, JudgeResultEnum::CompileError, errmsg@, Seq::empty()),
{
    JudgeResponse {
        state: Some(State::Result(JudgeResult {
            time_used,
            memory_used,
            result: JudgeResultEnum::CompileError,
            errmsg: errmsg.to_owned(),
            outmsg: String::new(),
        })),
    }
}

/// A bare result event with the given code and no messages.
pub fn judge_result(time_used: i64, memory_used: i64, result: JudgeResultEnum) -> (r:
    JudgeResponse)
    ensures
        is_result(r, time_used, memory_used, result, Seq::empty(), Seq::empty()),
{
    JudgeResponse {
        state: Some(State::Result(JudgeResult {
            time_used,
            memory_used,
            result,
            errmsg: String::new(),
            outmsg: String::new(),
        })),
    }
}

/// The submission compiled; the compile step's resource use is reported.
pub fn compile_success(time_used: i64, memory_used: i64) -> (r: JudgeResponse)
    ensures
        is_result(
            r,
            time_used,
            memory_used,
            JudgeResultEnum::CompileSuccess,
            Seq::empty(),
            Seq::empty(),
        ),
{
    judge_result(time_used, memory_used, JudgeResultEnum::CompileSuccess)
}

/// The run finished and its output matched the expected answer.
pub fn accepted(time_used: i64, memory_used: i64) -> (r: JudgeResponse)
    ensures
        is_result(r, time_used, memory_used, JudgeResultEnum::Accepted, Seq::empty(), Seq::empty()),
{
    judge_result(time_used, memory_used, JudgeResultEnum::Accepted)
}

/// The run finished but its output did not match the expected answer.
pub fn wrong_answer(time_used: i64, memory_used: i64) -> (r: JudgeResponse)
    ensures
        is_result(
            r,
            time_used,
            memory_used,
            JudgeResultEnum::WrongAnswer,
            Seq::empty(),
            Seq::empty(),
        ),
{
    judge_result(time_used, memory_used, JudgeResultEnum::WrongAnswer)
}

/// The run used more CPU time than the configured limit.
pub fn time_limit_exceeded(time_used: i64, memory_used: i64) -> (r: JudgeResponse)
    ensures
        is_result(
            r,
            time_used,
            memory_used,
            JudgeResultEnum::TimeLimitExceeded,
            Seq::empty(),
            Seq::empty(),
        ),
{
    judge_result(time_used, memory_used, JudgeResultEnum::TimeLimitExceeded)
}

/// The run used more memory than the configured limit.
pub fn memory_limit_exceeded(time_used: i64, memory_used: i64) -> (r: JudgeResponse)
    ensures
        is_result(
            r,
            time_used,
            memory_used,
            JudgeResultEnum::MemoryLimitExceeded,
            Seq::empty(),
            Seq::empty(),
        ),
{
    judge_result(time_used, memory_used, JudgeResultEnum::MemoryLimitExceeded)
}

/// The run was killed by a signal or returned a non-zero exit code.
pub fn runtime_error(time_used: i64, memory_used: i64, errmsg: &str) -> (r: JudgeResponse)
    ensures
        is_result(r, time_used, memory_used, JudgeResultEnum::RuntimeError, errmsg@, Seq::empty()),
{
    JudgeResponse {
        state: Some(State::Result(JudgeResult {
            time_used,
            memory_used,
            result: JudgeResultEnum::RuntimeError,
            errmsg: errmsg.to_owned(),
            outmsg: String::new(),
        })),
    }
}

/// A special-judge decision, with the special judge's captured output and
/// error streams attached to the user program's measured resources.
pub fn spj_result(
    time_used: i64,
    memory_used: i64,
    result: JudgeResultEnum,
    outmsg: &str,
    errmsg: &str,
) -> (r: JudgeResponse)
    ensures
        is_result(r, time_used, memory_used, result, errmsg@, outmsg@),
{
    JudgeResponse {
        state: Some(State::Result(JudgeResult {
            time_used,
            memory_used,
            result,
            errmsg: errmsg.to_owned(),
            outmsg: outmsg.to_owned(),
        })),
    }
}

} // verus!
