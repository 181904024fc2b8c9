//! Syscall-filter policies and their compilation to classic BPF.
//!
//! A policy is a default action plus, per syscall number, a list of rules;
//! a rule fires when all of its 64-bit argument conditions hold.  The
//! compiler emits the standard seccomp program shape: an architecture
//! check that kills on mismatch, the syscall-number dispatcher, one block
//! per rule with its condition chain, and a tail that returns the default
//! action.  `spec_program` states the compiled program instruction by
//! instruction; the compiler returns exactly that sequence, or an error
//! when a rule's block cannot be reached by one byte-sized jump or the
//! program exceeds the kernel's instruction budget.

use vstd::prelude::*;

verus! {

use crate::error::Error;

/// Load a 32-bit word of the seccomp data buffer.
pub const BPF_LD_W_ABS: u16 = 0x20;

/// Jump if equal to the constant.
pub const BPF_JEQ_K: u16 = 0x15;

/// Jump if greater than the constant.
pub const BPF_JGT_K: u16 = 0x25;

/// Jump if greater than or equal to the constant.
pub const BPF_JGE_K: u16 = 0x35;

/// Bitwise-and the accumulator with the constant.
pub const BPF_AND_K: u16 = 0x54;

/// Return the constant.
pub const BPF_RET_K: u16 = 0x06;

/// Architecture word checked by the preamble.
pub const AUDIT_ARCH_X86_64: u32 = 0xC000003E;

/// Offset of the syscall number in the seccomp data buffer.
pub const SECCOMP_NR_OFFSET: u32 = 0;

/// Offset of the architecture word in the seccomp data buffer.
pub const SECCOMP_ARCH_OFFSET: u32 = 4;

/// Offset of the first argument's low word in the seccomp data buffer.
pub const SECCOMP_ARGS_OFFSET: u32 = 16;

/// Kernel cap on the length of a BPF program.
pub const BPF_MAXINSNS: usize = 4096;

/// Comparison applied to one syscall argument.
#[derive(Clone, Copy, Debug, PartialEq, Eq, Structural)]
pub enum SeccompCmpOp {
    Eq,
    Ge,
    Gt,
    Le,
    Lt,
    MaskedEq(u64),
}

/// What the kernel does with a call the filter decided on.
#[derive(Clone, Copy, Debug, PartialEq, Eq, Structural)]
pub enum SeccompAction {
    Allow,
    Errno(u32),
    Kill,
    Trap,
    Trace(u32),
}

/// One 64-bit comparison on one syscall argument.
#[derive(Clone, Copy, Debug, PartialEq, Eq, Structural)]
pub struct SeccompCondition {
    pub arg_index: u8,
    pub operator: SeccompCmpOp,
    pub value: u64,
}

impl SeccompCondition {
    /// Records a condition on the argument at `arg_index`.
    pub fn new(arg_index: u8, operator: SeccompCmpOp, value: u64) -> (c: SeccompCondition)
        ensures
            c == (SeccompCondition { arg_index, operator, value }),
    {
        SeccompCondition { arg_index, operator, value }
    }
}

/// One rule: when every condition holds, the action applies.
#[derive(Clone, Debug)]
pub struct SeccompRule {
    pub conditions: Vec<SeccompCondition>,
    pub action: SeccompAction,
}

impl SeccompRule {
    /// Records a rule.
    pub fn new(conditions: Vec<SeccompCondition>, action: SeccompAction) -> (r: SeccompRule)
        ensures
            r.conditions == conditions,
            r.action == action,
    {
        SeccompRule { conditions, action }
    }
}

/// The rules attached to one syscall number.
pub type SyscallRuleSet = (i64, Vec<SeccompRule>);

/// A single rule set that allows the syscall unconditionally.
pub fn allow_syscall(syscall_number: i64) -> (r: SyscallRuleSet)
    ensures
        r.0 == syscall_number,
        r.1@.len() == 1,
        r.1@[0].conditions@.len() == 0,
        r.1@[0].action == SeccompAction::Allow,
{
    (syscall_number, vec![SeccompRule::new(Vec::new(), SeccompAction::Allow)])
}

/// A whole policy: the per-syscall rule sets, applied in order, and the
/// action for calls no rule decides.
pub struct SeccompFilter {
    pub rules: Vec<(i64, Vec<SeccompRule>)>,
    pub default_action: SeccompAction,
}

/// One classic BPF instruction.
#[derive(Clone, Copy, Debug, PartialEq, Eq, Structural)]
pub struct BpfInstruction {
    pub code: u16,
    pub jt: u8,
    pub jf: u8,
    pub k: u32,
}

/// A non-jumping or returning instruction.
pub open spec fn stmt(code: u16, k: u32) -> BpfInstruction {
    BpfInstruction { code, jt: 0, jf: 0, k }
}

/// A conditional jump.
pub open spec fn jump(code: u16, k: u32, jt: u8, jf: u8) -> BpfInstruction {
    BpfInstruction { code, jt, jf, k }
}

/// The kernel return word of an action.
pub open spec fn action_code(a: SeccompAction) -> u32 {
    match a {
        SeccompAction::Allow => 0x7fff0000u32,
        SeccompAction::Errno(e) => 0x00050000u32 | (e & 0x0000ffff),
        SeccompAction::Kill => 0u32,
        SeccompAction::Trap => 0x00030000u32,
        SeccompAction::Trace(d) => 0x7ff00000u32 | (d & 0x0000ffff),
    }
}

/// Instructions a compiled condition occupies.
pub open spec fn cond_size(c: SeccompCondition) -> int {
    match c.operator {
        SeccompCmpOp::Eq => 4,
        SeccompCmpOp::MaskedEq(_) => 6,
        _ => 5,
    }
}

/// Instructions a compiled condition chain occupies.
pub open spec fn conds_size(cs: Seq<SeccompCondition>) -> int
    decreases cs.len(),
{
    if cs.len() == 0 {
        0
    } else {
        cond_size(cs[0]) + conds_size(cs.skip(1))
    }
}

/// Instructions a rule's block occupies after its dispatch jump: the
/// condition chain and the return.
pub open spec fn rule_body_size(r: SeccompRule) -> int {
    conds_size(r.conditions@) + 1
}

/// Offset of the low word of argument `i`.
pub open spec fn arg_lo_offset(i: u8) -> u32 {
    (16 + 8 * (i as int)) as u32
}

/// Offset of the high word of argument `i`.
pub open spec fn arg_hi_offset(i: u8) -> u32 {
    (20 + 8 * (i as int)) as u32
}

/// The instructions of one compiled condition.  `fail` is the jump
/// distance from the end of this condition block to the instruction after
/// the rule's return; a failed comparison leaves the whole rule.
pub open spec fn spec_cond_block(c: SeccompCondition, fail: int) -> Seq<BpfInstruction> {
    let lo = arg_lo_offset(c.arg_index);
    let hi = arg_hi_offset(c.arg_index);
    let vlo = c.value as u32;
    let vhi = (c.value >> 32) as u32;
    match c.operator {
        SeccompCmpOp::Eq => seq![
            stmt(BPF_LD_W_ABS, hi),
            jump(BPF_JEQ_K, vhi, 0, (fail + 2) as u8),
            stmt(BPF_LD_W_ABS, lo),
            jump(BPF_JEQ_K, vlo, 0, fail as u8),
        ],
        SeccompCmpOp::MaskedEq(mask) => {
            let mlo = mask as u32;
            let mhi = (mask >> 32) as u32;
            let tlo = (c.value & mask) as u32;
            let thi = ((c.value & mask) >> 32) as u32;
            seq![
                stmt(BPF_LD_W_ABS, hi),
                stmt(BPF_AND_K, mhi),
                jump(BPF_JEQ_K, thi, 0, (fail + 3) as u8),
                stmt(BPF_LD_W_ABS, lo),
                stmt(BPF_AND_K, mlo),
                jump(BPF_JEQ_K, tlo, 0, fail as u8),
            ]
        },
        SeccompCmpOp::Gt => seq![
            stmt(BPF_LD_W_ABS, hi),
            jump(BPF_JGT_K, vhi, 3, 0),
            jump(BPF_JEQ_K, vhi, 0, (fail + 2) as u8),
            stmt(BPF_LD_W_ABS, lo),
            jump(BPF_JGT_K, vlo, 0, fail as u8),
        ],
        SeccompCmpOp::Ge => seq![
            stmt(BPF_LD_W_ABS, hi),
            jump(BPF_JGT_K, vhi, 3, 0),
            jump(BPF_JEQ_K, vhi, 0, (fail + 2) as u8),
            stmt(BPF_LD_W_ABS, lo),
            jump(BPF_JGE_K, vlo, 0, fail as u8),
        ],
        SeccompCmpOp::Lt => seq![
            stmt(BPF_LD_W_ABS, hi),
            jump(BPF_JGT_K, vhi, (fail + 3) as u8, 0),
            jump(BPF_JEQ_K, vhi, 0, 2),
            stmt(BPF_LD_W_ABS, lo),
            jump(BPF_JGE_K, vlo, fail as u8, 0),
        ],
        SeccompCmpOp::Le => seq![
            stmt(BPF_LD_W_ABS, hi),
            jump(BPF_JGT_K, vhi, (fail + 3) as u8, 0),
            jump(BPF_JEQ_K, vhi, 0, 2),
            stmt(BPF_LD_W_ABS, lo),
            jump(BPF_JGT_K, vlo, fail as u8, 0),
        ],
    }
}

/// The compiled condition chain of one rule: each condition's failure jump
/// skips the rest of the rule, its return included.
pub open spec fn spec_rule_conds(cs: Seq<SeccompCondition>) -> Seq<BpfInstruction>
    decreases cs.len(),
{
    if cs.len() == 0 {
        Seq::empty()
    } else {
        spec_cond_block(cs[0], conds_size(cs.skip(1)) + 1) + spec_rule_conds(cs.skip(1))
    }
}

/// One rule's compiled block: a dispatch jump that skips the block when the
/// syscall number differs, the condition chain, and the rule's return.
pub open spec fn spec_rule_block(nr: i64, r: SeccompRule) -> Seq<BpfInstruction> {
    seq![jump(BPF_JEQ_K, nr as u32, 0, rule_body_size(r) as u8)] + spec_rule_conds(r.conditions@)
        + seq![stmt(BPF_RET_K, action_code(r.action))]
}

/// The compiled blocks of one syscall's rules, in order.
pub open spec fn spec_rules_blocks(nr: i64, rules: Seq<SeccompRule>) -> Seq<BpfInstruction>
    decreases rules.len(),
{
    if rules.len() == 0 {
        Seq::empty()
    } else {
        spec_rule_block(nr, rules[0]) + spec_rules_blocks(nr, rules.skip(1))
    }
}

/// The compiled blocks of all rule sets, in order.
pub open spec fn spec_entries_blocks(entries: Seq<(i64, Vec<SeccompRule>)>) -> Seq<BpfInstruction>
    decreases entries.len(),
{
    if entries.len() == 0 {
        Seq::empty()
    } else {
        spec_rules_blocks(entries[0].0, entries[0].1@) + spec_entries_blocks(entries.skip(1))
    }
}

/// The program prologue: load the architecture word, kill the process on a
/// foreign architecture, then load the syscall number.
pub open spec fn spec_preamble() -> Seq<BpfInstruction> {
    seq![
        stmt(BPF_LD_W_ABS, SECCOMP_ARCH_OFFSET),
        jump(BPF_JEQ_K, AUDIT_ARCH_X86_64, 1, 0),
        stmt(BPF_RET_K, action_code(SeccompAction::Kill)),
        stmt(BPF_LD_W_ABS, SECCOMP_NR_OFFSET),
    ]
}

/// The whole compiled program of a policy.
pub open spec fn spec_program(f: SeccompFilter) -> Seq<BpfInstruction> {
    spec_preamble() + spec_entries_blocks(f.rules@) + seq![
        stmt(BPF_RET_K, action_code(f.default_action)),
    ]
}

/// The policy compiles: every rule's block is reachable by a byte-sized
/// jump and the program fits the kernel's budget.
pub open spec fn spec_filter_ok(f: SeccompFilter) -> bool {
    &&& forall|e: int, j: int|
        0 <= e < f.rules@.len() && 0 <= j < f.rules@[e].1@.len() ==> rule_body_size(
            #[trigger] f.rules@[e].1@[j],
        ) <= 255
    &&& spec_program(f).len() <= BPF_MAXINSNS
}

fn action_word(a: &SeccompAction) -> (r: u32)
    ensures
        r == action_code(*a),
{
    match *a {
        SeccompAction::Allow => 0x7fff0000u32,
        SeccompAction::Errno(e) => 0x00050000u32 | (e & 0x0000ffff),
        SeccompAction::Kill => 0u32,
        SeccompAction::Trap => 0x00030000u32,
        SeccompAction::Trace(d) => 0x7ff00000u32 | (d & 0x0000ffff),
    }
}

fn cond_len(c: &SeccompCondition) -> (r: u32)
    ensures
        r as int == cond_size(*c),
{
    match c.operator {
        SeccompCmpOp::Eq => 4,
        SeccompCmpOp::MaskedEq(_) => 6,
        _ => 5,
    }
}

/// Emits the instructions of one condition; `fail` is the distance from
/// the end of the emitted block to the instruction after the rule's return.
fn emit_cond(prog: &mut Vec<BpfInstruction>, c: &SeccompCondition, fail: u32)
    requires
        fail + 3 <= 255,
    ensures
        final(prog)@ == old(prog)@ + spec_cond_block(*c, fail as int),
{
    let lo: u32 = SECCOMP_ARGS_OFFSET + 8 * (c.arg_index as u32);
    let hi: u32 = lo + 4;
    let vlo = c.value as u32;
    let vhi = (c.value >> 32u64) as u32;
    match c.operator {
        SeccompCmpOp::Eq => {
            prog.push(BpfInstruction { code: BPF_LD_W_ABS, jt: 0, jf: 0, k: hi });
            prog.push(BpfInstruction { code: BPF_JEQ_K, jt: 0, jf: (fail + 2) as u8, k: vhi });
            prog.push(BpfInstruction { code: BPF_LD_W_ABS, jt: 0, jf: 0, k: lo });
            prog.push(BpfInstruction { code: BPF_JEQ_K, jt: 0, jf: fail as u8, k: vlo });
        },
        SeccompCmpOp::MaskedEq(mask) => {
            let mlo = mask as u32;
            let mhi = (mask >> 32u64) as u32;
            let tlo = (c.value & mask) as u32;
            let thi = ((c.value & mask) >> 32u64) as u32;
            prog.push(BpfInstruction { code: BPF_LD_W_ABS, jt: 0, jf: 0, k: hi });
            prog.push(BpfInstruction { code: BPF_AND_K, jt: 0, jf: 0, k: mhi });
            prog.push(BpfInstruction { code: BPF_JEQ_K, jt: 0, jf: (fail + 3) as u8, k: thi });
            prog.push(BpfInstruction { code: BPF_LD_W_ABS, jt: 0, jf: 0, k: lo });
            prog.push(BpfInstruction { code: BPF_AND_K, jt: 0, jf: 0, k: mlo });
            prog.push(BpfInstruction { code: BPF_JEQ_K, jt: 0, jf: fail as u8, k: tlo });
        },
        SeccompCmpOp::Gt => {
            prog.push(BpfInstruction { code: BPF_LD_W_ABS, jt: 0, jf: 0, k: hi });
            prog.push(BpfInstruction { code: BPF_JGT_K, jt: 3, jf: 0, k: vhi });
            prog.push(BpfInstruction { code: BPF_JEQ_K, jt: 0, jf: (fail + 2) as u8, k: vhi });
            prog.push(BpfInstruction { code: BPF_LD_W_ABS, jt: 0, jf: 0, k: lo });
            prog.push(BpfInstruction { code: BPF_JGT_K, jt: 0, jf: fail as u8, k: vlo });
        },
        SeccompCmpOp::Ge => {
            prog.push(BpfInstruction { code: BPF_LD_W_ABS, jt: 0, jf: 0, k: hi });
            prog.push(BpfInstruction { code: BPF_JGT_K, jt: 3, jf: 0, k: vhi });
            prog.push(BpfInstruction { code: BPF_JEQ_K, jt: 0, jf: (fail + 2) as u8, k: vhi });
            prog.push(BpfInstruction { code: BPF_LD_W_ABS, jt: 0, jf: 0, k: lo });
            prog.push(BpfInstruction { code: BPF_JGE_K, jt: 0, jf: fail as u8, k: vlo });
        },
        SeccompCmpOp::Lt => {
            prog.push(BpfInstruction { code: BPF_LD_W_ABS, jt: 0, jf: 0, k: hi });
            prog.push(BpfInstruction { code: BPF_JGT_K, jt: (fail + 3) as u8, jf: 0, k: vhi });
            prog.push(BpfInstruction { code: BPF_JEQ_K, jt: 0, jf: 2, k: vhi });
            prog.push(BpfInstruction { code: BPF_LD_W_ABS, jt: 0, jf: 0, k: lo });
            prog.push(BpfInstruction { code: BPF_JGE_K, jt: fail as u8, jf: 0, k: vlo });
        },
        SeccompCmpOp::Le => {
            prog.push(BpfInstruction { code: BPF_LD_W_ABS, jt: 0, jf: 0, k: hi });
            prog.push(BpfInstruction { code: BPF_JGT_K, jt: (fail + 3) as u8, jf: 0, k: vhi });
            prog.push(BpfInstruction { code: BPF_JEQ_K, jt: 0, jf: 2, k: vhi });
            prog.push(BpfInstruction { code: BPF_LD_W_ABS, jt: 0, jf: 0, k: lo });
            prog.push(BpfInstruction { code: BPF_JGT_K, jt: fail as u8, jf: 0, k: vlo });
        },
    }
    proof {
        assert(prog@ =~= old(prog)@ + spec_cond_block(*c, fail as int));
    }
}

/// The length of one rule's block after its dispatch jump, or an error
/// when it cannot be skipped by one byte-sized jump.
fn rule_body_len(rule: &SeccompRule) -> (res: Result<u32, Error>)
    ensures
        match res {
            Ok(n) => n as int == rule_body_size(*rule) && 1 <= n <= 255,
            Err(e) => rule_body_size(*rule) > 255 && (e matches Error::SystemError(m) && m@
                == "seccomp filter too large!"@),
        },
{
    let cs = &rule.conditions;
    let n = cs.len();
    let mut sum: u32 = 1;
    let mut j: usize = 0;
    while j < n
        invariant
            cs@ == rule.conditions@,
            n == cs@.len(),
            j <= n,
            sum as int == 1 + conds_size(cs@.take(j as int)),
            sum <= 255,
        decreases n - j,
    {
        let size = cond_len(&cs[j]);
        proof {
            lemma_conds_size_take(cs@, j as int);
        }
        if sum + size > 255 {
            proof {
                lemma_conds_size_take(cs@, j as int + 1);
                assert(cs@ == rule.conditions@);
                assert(conds_size(cs@) >= conds_size(cs@.take(j as int + 1)));
                assert(conds_size(cs@.take(j as int + 1)) == conds_size(cs@.take(j as int))
                    + cond_size(cs@[j as int]));
                assert(rule_body_size(*rule) == 1 + conds_size(cs@));
            }
            return Err(Error::SystemError("seccomp filter too large!".to_owned()));
        }
        sum = sum + size;
        j = j + 1;
    }
    proof {
        assert(cs@.take(n as int) =~= cs@);
        lemma_conds_size_nonneg(cs@);
        assert(cs@ == rule.conditions@);
        assert(rule_body_size(*rule) == 1 + conds_size(cs@));
    }
    Ok(sum)
}

/// Emits one rule's whole block: the dispatch jump, the condition chain,
/// and the rule's return.
fn emit_rule(prog: &mut Vec<BpfInstruction>, nr: i64, rule: &SeccompRule) -> (res: Result<
    (),
    Error,
>)
    ensures
        match res {
            Ok(()) => final(prog)@ == old(prog)@ + spec_rule_block(nr, *rule)
                && rule_body_size(*rule) <= 255,
            Err(e) => rule_body_size(*rule) > 255 && final(prog)@ == old(prog)@ && (e matches
                Error::SystemError(m) && m@ == "seccomp filter too large!"@),
        },
{
    let body = match rule_body_len(rule) {
        Ok(b) => b,
        Err(e) => {
            return Err(e);
        },
    };
    prog.push(BpfInstruction { code: BPF_JEQ_K, jt: 0, jf: body as u8, k: nr as u32 });
    let ghost base = prog@;
    let ghost mut done: Seq<BpfInstruction> = Seq::empty();
    let cs = &rule.conditions;
    let n = cs.len();
    let mut rest: u32 = body;
    let mut j: usize = 0;
    proof {
        assert(cs@.skip(0) =~= cs@);
        assert(base + done =~= base);
    }
    while j < n
        invariant
            cs@ == rule.conditions@,
            n == cs@.len(),
            j <= n,
            rest as int == conds_size(cs@.skip(j as int)) + 1,
            rest <= body <= 255,
            body as int == rule_body_size(*rule),
            spec_rule_conds(cs@) == done + spec_rule_conds(cs@.skip(j as int)),
            prog@ == base + done,
        decreases n - j,
    {
        let size = cond_len(&cs[j]);
        proof {
            assert(cs@.skip(j as int)[0] == cs@[j as int]);
            assert(cs@.skip(j as int).skip(1) =~= cs@.skip(j as int + 1));
            lemma_conds_size_nonneg(cs@.skip(j as int + 1));
        }
        let fail = rest - size;
        emit_cond(prog, &cs[j], fail);
        proof {
            done = done + spec_cond_block(cs@[j as int], fail as int);
            assert(prog@ =~= base + done);
            assert(spec_rule_conds(cs@) =~= done + spec_rule_conds(cs@.skip(j as int + 1)));
        }
        rest = fail;
        j = j + 1;
    }
    let word = action_word(&rule.action);
    prog.push(BpfInstruction { code: BPF_RET_K, jt: 0, jf: 0, k: word });
    proof {
        assert(cs@.skip(n as int) =~= Seq::<SeccompCondition>::empty());
        assert(spec_rule_conds(cs@) == done);
        assert(prog@ =~= old(prog)@ + spec_rule_block(nr, *rule));
    }
    Ok(())
}

impl SeccompFilter {
    /// Records a policy.
    pub fn new(rules: Vec<(i64, Vec<SeccompRule>)>, default_action: SeccompAction) -> (f:
        SeccompFilter)
        ensures
            f.rules == rules,
            f.default_action == default_action,
    {
        SeccompFilter { rules, default_action }
    }

    /// Appends one more rule set, checked after those already present.
    pub fn add_rules(&mut self, syscall_number: i64, rules: Vec<SeccompRule>)
        ensures
            final(self).rules@ == old(self).rules@.push((syscall_number, rules)),
            final(self).default_action == old(self).default_action,
    {
        self.rules.push((syscall_number, rules));
    }

    /// Compiles the policy to the classic BPF program `spec_program`
    /// describes, or reports that it cannot fit.
    pub fn into_bpf(&self) -> (res: Result<Vec<BpfInstruction>, Error>)
        ensures
            match res {
                Ok(p) => spec_filter_ok(*self) && p@ == spec_program(*self),
                Err(e) => !spec_filter_ok(*self) && (e matches Error::SystemError(m) && m@
                    == "seccomp filter too large!"@),
            },
    {
        let mut prog: Vec<BpfInstruction> = Vec::new();
        prog.push(BpfInstruction { code: BPF_LD_W_ABS, jt: 0, jf: 0, k: SECCOMP_ARCH_OFFSET });
        prog.push(BpfInstruction { code: BPF_JEQ_K, jt: 1, jf: 0, k: AUDIT_ARCH_X86_64 });
        prog.push(BpfInstruction { code: BPF_RET_K, jt: 0, jf: 0, k: 0 });
        prog.push(BpfInstruction { code: BPF_LD_W_ABS, jt: 0, jf: 0, k: SECCOMP_NR_OFFSET });
        proof {
            assert(prog@ =~= spec_preamble());
        }
        let ghost mut done: Seq<BpfInstruction> = Seq::empty();
        let ne = self.rules.len();
        let mut e: usize = 0;
        proof {
            assert(self.rules@.skip(0) =~= self.rules@);
            assert(spec_preamble() + done =~= spec_preamble());
        }
        while e < ne
            invariant
                ne == self.rules@.len(),
                e <= ne,
                spec_entries_blocks(self.rules@) == done + spec_entries_blocks(
                    self.rules@.skip(e as int),
                ),
                prog@ == spec_preamble() + done,
                forall|x: int, y: int|
                    0 <= x < e && 0 <= y < self.rules@[x].1@.len() ==> rule_body_size(
                        #[trigger] self.rules@[x].1@[y],
                    ) <= 255,
            decreases ne - e,
        {
            let nr = self.rules[e].0;
            let nrules = self.rules[e].1.len();
            let ghost entry_rules = self.rules@[e as int].1@;
            let ghost mut rdone: Seq<BpfInstruction> = Seq::empty();
            let mut j: usize = 0;
            proof {
                assert(entry_rules.skip(0) =~= entry_rules);
                assert(done + rdone =~= done);
            }
            while j < nrules
                invariant
                    ne == self.rules@.len(),
                    e < ne,
                    nrules == entry_rules.len(),
                    entry_rules == self.rules@[e as int].1@,
                    nr == self.rules@[e as int].0,
                    j <= nrules,
                    spec_rules_blocks(nr, entry_rules) == rdone + spec_rules_blocks(
                        nr,
                        entry_rules.skip(j as int),
                    ),
                    prog@ == spec_preamble() + done + rdone,
                    spec_entries_blocks(self.rules@) == done + spec_entries_blocks(
                        self.rules@.skip(e as int),
                    ),
                    forall|x: int, y: int|
                        0 <= x < e && 0 <= y < self.rules@[x].1@.len() ==> rule_body_size(
                            #[trigger] self.rules@[x].1@[y],
                        ) <= 255,
                    forall|y: int|
                        0 <= y < j ==> rule_body_size(#[trigger] entry_rules[y]) <= 255,
                decreases nrules - j,
            {
                match emit_rule(&mut prog, nr, &self.rules[e].1[j]) {
                    Ok(()) => {},
                    Err(err) => {
                        proof {
                            assert(rule_body_size(self.rules@[e as int].1@[j as int]) > 255);
                            assert(!spec_filter_ok(*self));
                        }
                        return Err(err);
                    },
                }
                proof {
                    assert(entry_rules.skip(j as int)[0] == entry_rules[j as int]);
                    assert(entry_rules.skip(j as int).skip(1) =~= entry_rules.skip(j as int + 1));
                    rdone = rdone + spec_rule_block(nr, entry_rules[j as int]);
                    assert(prog@ =~= spec_preamble() + done + rdone);
                    assert(spec_rules_blocks(nr, entry_rules) =~= rdone + spec_rules_blocks(
                        nr,
                        entry_rules.skip(j as int + 1),
                    ));
                }
                j = j + 1;
            }
            proof {
                assert(entry_rules.skip(nrules as int) =~= Seq::<SeccompRule>::empty());
                assert(spec_rules_blocks(nr, entry_rules) == rdone);
                assert(self.rules@.skip(e as int)[0] == self.rules@[e as int]);
                assert(self.rules@.skip(e as int).skip(1) =~= self.rules@.skip(e as int + 1));
                done = done + rdone;
                assert(prog@ =~= spec_preamble() + done);
                assert(spec_entries_blocks(self.rules@) =~= done + spec_entries_blocks(
                    self.rules@.skip(e as int + 1),
                ));
            }
            e = e + 1;
        }
        let word = action_word(&self.default_action);
        prog.push(BpfInstruction { code: BPF_RET_K, jt: 0, jf: 0, k: word });
        proof {
            assert(self.rules@.skip(ne as int) =~= Seq::<(i64, Vec<SeccompRule>)>::empty());
            assert(spec_entries_blocks(self.rules@) == done);
            assert(prog@ =~= spec_program(*self));
        }
        if prog.len() > BPF_MAXINSNS {
            return Err(Error::SystemError("seccomp filter too large!".to_owned()));
        }
        Ok(prog)
    }
}

/// The instruction is a conditional jump.
pub open spec fn is_jump(ins: BpfInstruction) -> bool {
    ins.code == BPF_JEQ_K || ins.code == BPF_JGT_K || ins.code == BPF_JGE_K
}

/// A jump at `i` stays within `end` positions, the position one past the
/// last being allowed as a fall-through target.
pub open spec fn jump_ok(ins: BpfInstruction, i: int, end: int) -> bool {
    is_jump(ins) ==> i + 1 + ins.jt <= end && i + 1 + ins.jf <= end
}

/// Every jump in `p` lands within `p` or at most `slack` positions past
/// its end.
pub open spec fn spec_jumps_bounded(p: Seq<BpfInstruction>, slack: int) -> bool {
    forall|i: int| 0 <= i < p.len() ==> jump_ok(#[trigger] p[i], i, p.len() + slack)
}

/// A jump at `i` lands strictly inside `end` positions.
pub open spec fn jump_strict(ins: BpfInstruction, i: int, end: int) -> bool {
    is_jump(ins) ==> i + 1 + ins.jt < end && i + 1 + ins.jf < end
}

proof fn lemma_jumps_mono(p: Seq<BpfInstruction>, s1: int, s2: int)
    requires
        spec_jumps_bounded(p, s1),
        s1 <= s2,
    ensures
        spec_jumps_bounded(p, s2),
{
    assert forall|i: int| 0 <= i < p.len() implies jump_ok(#[trigger] p[i], i, p.len() + s2) by {
        assert(jump_ok(p[i], i, p.len() + s1));
    }
}

proof fn lemma_jumps_concat(a: Seq<BpfInstruction>, b: Seq<BpfInstruction>, slack: int)
    requires
        spec_jumps_bounded(a, b.len() + slack),
        spec_jumps_bounded(b, slack),
    ensures
        spec_jumps_bounded(a + b, slack),
{
    let p = a + b;
    assert forall|i: int| 0 <= i < p.len() implies jump_ok(#[trigger] p[i], i, p.len() + slack) by {
        if i < a.len() {
            assert(p[i] == a[i]);
            assert(jump_ok(a[i], i, a.len() + b.len() + slack));
        } else {
            assert(p[i] == b[i - a.len()]);
            assert(jump_ok(b[i - a.len()], i - a.len(), b.len() + slack));
        }
    }
}

proof fn lemma_cond_block_bounded(c: SeccompCondition, fail: int)
    requires
        0 <= fail,
        fail + 3 <= 255,
    ensures
        spec_jumps_bounded(spec_cond_block(c, fail), fail),
        spec_cond_block(c, fail).len() == cond_size(c),
{
    let p = spec_cond_block(c, fail);
    assert forall|i: int| 0 <= i < p.len() implies jump_ok(#[trigger] p[i], i, p.len() + fail) by {
        match c.operator {
            SeccompCmpOp::Eq => {
                assert(p[1].jf == (fail + 2) as u8 && p[3].jf == fail as u8);
            },
            SeccompCmpOp::MaskedEq(_) => {
                assert(p[2].jf == (fail + 3) as u8 && p[5].jf == fail as u8);
            },
            SeccompCmpOp::Gt => {
                assert(p[1].jt == 3 && p[2].jf == (fail + 2) as u8 && p[4].jf == fail as u8);
            },
            SeccompCmpOp::Ge => {
                assert(p[1].jt == 3 && p[2].jf == (fail + 2) as u8 && p[4].jf == fail as u8);
            },
            SeccompCmpOp::Lt => {
                assert(p[1].jt == (fail + 3) as u8 && p[2].jf == 2 && p[4].jt == fail as u8);
            },
            SeccompCmpOp::Le => {
                assert(p[1].jt == (fail + 3) as u8 && p[2].jf == 2 && p[4].jt == fail as u8);
            },
        }
    }
}

proof fn lemma_rule_conds_bounded(cs: Seq<SeccompCondition>)
    requires
        conds_size(cs) + 1 <= 255,
    ensures
        spec_jumps_bounded(spec_rule_conds(cs), 1),
        spec_rule_conds(cs).len() == conds_size(cs),
    decreases cs.len(),
{
    if cs.len() == 0 {
    } else {
        let rest = cs.skip(1);
        lemma_conds_size_nonneg(rest);
        let fail = conds_size(rest) + 1;
        lemma_cond_block_bounded(cs[0], fail);
        lemma_rule_conds_bounded(rest);
        lemma_jumps_concat(spec_cond_block(cs[0], fail), spec_rule_conds(rest), 1);
    }
}

proof fn lemma_rule_block_bounded(nr: i64, r: SeccompRule)
    requires
        rule_body_size(r) <= 255,
    ensures
        spec_jumps_bounded(spec_rule_block(nr, r), 0),
        spec_rule_block(nr, r).len() == rule_body_size(r) + 1,
{
    let chain = spec_rule_conds(r.conditions@);
    let d = seq![jump(BPF_JEQ_K, nr as u32, 0, rule_body_size(r) as u8)];
    let tail = seq![stmt(BPF_RET_K, action_code(r.action))];
    lemma_conds_size_nonneg(r.conditions@);
    lemma_rule_conds_bounded(r.conditions@);
    lemma_jumps_concat(chain, tail, 0);
    assert(spec_jumps_bounded(d, chain.len() as int + 1)) by {
        assert(d[0].jf == rule_body_size(r) as u8);
        assert(jump_ok(d[0], 0, d.len() + chain.len() as int + 1));
    }
    lemma_jumps_concat(d, chain + tail, 0);
    assert(d + (chain + tail) =~= spec_rule_block(nr, r));
}

proof fn lemma_rules_blocks_bounded(nr: i64, rules: Seq<SeccompRule>)
    requires
        forall|j: int| 0 <= j < rules.len() ==> rule_body_size(#[trigger] rules[j]) <= 255,
    ensures
        spec_jumps_bounded(spec_rules_blocks(nr, rules), 0),
    decreases rules.len(),
{
    if rules.len() > 0 {
        let rest = rules.skip(1);
        assert(forall|j: int|
            0 <= j < rest.len() ==> rule_body_size(#[trigger] rest[j]) <= 255) by {
            assert(forall|j: int| 0 <= j < rest.len() ==> rest[j] == rules[j + 1]);
        }
        lemma_rule_block_bounded(nr, rules[0]);
        lemma_rules_blocks_bounded(nr, rest);
        lemma_jumps_mono(
            spec_rule_block(nr, rules[0]),
            0,
            spec_rules_blocks(nr, rest).len() as int,
        );
        lemma_jumps_concat(spec_rule_block(nr, rules[0]), spec_rules_blocks(nr, rest), 0);
    }
}

proof fn lemma_entries_blocks_bounded(entries: Seq<(i64, Vec<SeccompRule>)>)
    requires
        forall|e: int, j: int|
            0 <= e < entries.len() && 0 <= j < entries[e].1@.len() ==> rule_body_size(
                #[trigger] entries[e].1@[j],
            ) <= 255,
    ensures
        spec_jumps_bounded(spec_entries_blocks(entries), 0),
    decreases entries.len(),
{
    if entries.len() > 0 {
        let rest = entries.skip(1);
        assert forall|e: int, j: int|
            0 <= e < rest.len() && 0 <= j < rest[e].1@.len() implies rule_body_size(
            #[trigger] rest[e].1@[j],
        ) <= 255 by {
            assert(rest[e] == entries[e + 1]);
            assert(rule_body_size(entries[e + 1].1@[j]) <= 255);
        }
        assert(forall|j: int|
            0 <= j < entries[0].1@.len() ==> rule_body_size(#[trigger] entries[0].1@[j]) <= 255);
        lemma_rules_blocks_bounded(entries[0].0, entries[0].1@);
        lemma_entries_blocks_bounded(rest);
        lemma_jumps_mono(
            spec_rules_blocks(entries[0].0, entries[0].1@),
            0,
            spec_entries_blocks(rest).len() as int,
        );
        lemma_jumps_concat(
            spec_rules_blocks(entries[0].0, entries[0].1@),
            spec_entries_blocks(rest),
            0,
        );
    }
}

/// Well-formedness of every program the compiler accepts: it is
/// non-empty, its last instruction returns, and every conditional jump
/// lands strictly inside the program — the shape the kernel's checker
/// demands before it installs a filter.
pub proof fn lemma_program_wf(f: SeccompFilter)
    requires
        spec_filter_ok(f),
    ensures
        ({
            let p = spec_program(f);
            &&& p.len() > 0
            &&& p.last().code == BPF_RET_K
            &&& forall|i: int| 0 <= i < p.len() ==> jump_strict(#[trigger] p[i], i, p.len() as int)
        }),
{
    let p = spec_program(f);
    let blocks = spec_entries_blocks(f.rules@);
    let head = spec_preamble() + blocks;
    let tail = seq![stmt(BPF_RET_K, action_code(f.default_action))];
    lemma_entries_blocks_bounded(f.rules@);
    assert(spec_jumps_bounded(spec_preamble(), blocks.len() as int)) by {
        let pre = spec_preamble();
        assert forall|i: int|
            0 <= i < pre.len() implies jump_ok(#[trigger] pre[i], i, pre.len() + blocks.len() as int) by {
            assert(pre[1].jt == 1 && pre[1].jf == 0);
        }
    }
    lemma_jumps_concat(spec_preamble(), blocks, 0);
    assert(p =~= head + tail);
    assert(p.last().code == BPF_RET_K);
    assert forall|i: int| 0 <= i < p.len() implies jump_strict(#[trigger] p[i], i, p.len() as int)
        by {
        if i < head.len() {
            assert(p[i] == head[i]);
            assert(jump_ok(head[i], i, head.len() as int));
            assert(head.len() < p.len());
        } else {
            assert(p[i] == tail[0]);
            assert(!is_jump(tail[0]));
        }
    }
}

proof fn lemma_conds_size_nonneg(cs: Seq<SeccompCondition>)
    ensures
        conds_size(cs) >= 0,
    decreases cs.len(),
{
    if cs.len() > 0 {
        lemma_conds_size_nonneg(cs.skip(1));
    }
}

proof fn lemma_conds_size_take(cs: Seq<SeccompCondition>, j: int)
    requires
        0 <= j <= cs.len(),
    ensures
        conds_size(cs) >= conds_size(cs.take(j)),
        j < cs.len() ==> conds_size(cs.take(j + 1)) == conds_size(cs.take(j)) + cond_size(cs[j]),
    decreases cs.len(),
{
    lemma_conds_size_split(cs, j);
    if j < cs.len() {
        lemma_conds_size_split(cs, j + 1);
        assert(cs.take(j + 1).take(j) =~= cs.take(j));
        lemma_conds_size_split(cs.take(j + 1), j);
        assert(cs.take(j + 1).skip(j) =~= seq![cs[j]]);
        assert(conds_size(seq![cs[j]]) == cond_size(cs[j]) + conds_size(seq![cs[j]].skip(1)));
        assert(seq![cs[j]].skip(1) =~= Seq::<SeccompCondition>::empty());
    }
    lemma_conds_size_nonneg(cs.skip(j));
}

proof fn lemma_conds_size_split(cs: Seq<SeccompCondition>, j: int)
    requires
        0 <= j <= cs.len(),
    ensures
        conds_size(cs) == conds_size(cs.take(j)) + conds_size(cs.skip(j)),
    decreases j,
{
    if j == 0 {
        assert(cs.take(0) =~= Seq::<SeccompCondition>::empty());
        assert(cs.skip(0) =~= cs);
    } else {
        assert(cs.take(j)[0] == cs[0]);
        assert(cs.take(j).skip(1) =~= cs.skip(1).take(j - 1));
        assert(cs.skip(j) =~= cs.skip(1).skip(j - 1));
        lemma_conds_size_split(cs.skip(1), j - 1);
    }
}

} // verus!
