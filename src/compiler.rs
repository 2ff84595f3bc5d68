//! Translation of source text into a program.
//!
//! Brackets are matched by nesting: the model `open_brackets(s, k)` is the list
//! of positions of the `[` that are still open after the first `k` characters,
//! innermost last. A `]` closes the last of them.
use vstd::prelude::*;
use crate::program::{
    PROGRAM_CAPACITY, Op, Instruction, Program, end_instruction, op_of_char, is_instruction_char,
    decode,
};

verus! {

/// Why a source text cannot be compiled.
#[derive(Clone, Copy, Debug, PartialEq, Eq, Structural)]
pub enum CompileError {
    /// A `]` with no open `[` before it.
    UnmatchedCloseBracket,
    /// More instructions than a program has slots.
    ProgramOverflow,
}

/// The index of the first character at or after `i` that is not an
/// instruction, or the length of `s` when there is none.
pub open spec fn code_len_from(s: Seq<char>, i: int) -> int
    decreases s.len() - i,
{
    if i < 0 || i >= s.len() {
        s.len() as int
    } else if is_instruction_char(s[i]) {
        code_len_from(s, i + 1)
    } else {
        i
    }
}

/// How many leading characters of `s` are compiled: compilation stops at the
/// first character that is not an instruction.
pub open spec fn code_len(s: Seq<char>) -> int {
    code_len_from(s, 0)
}

/// How many leading characters of `s` compilation looks at before it either
/// stops or runs out of program slots.
pub open spec fn scan_limit(s: Seq<char>) -> int {
    if code_len(s) < PROGRAM_CAPACITY {
        code_len(s)
    } else {
        PROGRAM_CAPACITY as int
    }
}

/// Positions of the `[` among the first `k` characters that no `]` among them
/// has closed, in order of position.
pub open spec fn open_brackets(s: Seq<char>, k: int) -> Seq<int>
    decreases k,
{
    if k <= 0 {
        Seq::empty()
    } else {
        let st = open_brackets(s, k - 1);
        if s[k - 1] == '[' {
            st.push(k - 1)
        } else if s[k - 1] == ']' && st.len() > 0 {
            st.drop_last()
        } else {
            st
        }
    }
}

/// Whether some `]` among the first `m` characters has no open `[` to close.
pub open spec fn has_unmatched_close(s: Seq<char>, m: int) -> bool {
    exists|j: int| 0 <= j < m && s[j] == ']' && (#[trigger] open_brackets(s, j)).len() == 0
}

/// The position of the `[` that the `]` at position `j` closes.
pub open spec fn partner_of_close(s: Seq<char>, j: int) -> int {
    open_brackets(s, j).last()
}

/// `ins` is what compiling the first `k` characters of `s` leaves in the
/// program: their operations in order, each `]` pointing at its `[` and that
/// `[` pointing back, still-open `[` and all other instructions with operand
/// zero, and the end instruction in every later slot.
#[verifier::opaque]
pub open spec fn compiled_as(s: Seq<char>, k: int, ins: Seq<Instruction>) -> bool {
    &&& ins.len() == PROGRAM_CAPACITY
    &&& forall|i: int| k <= i < PROGRAM_CAPACITY ==> #[trigger] ins[i] == end_instruction()
    &&& forall|i: int| 0 <= i < k ==> (#[trigger] ins[i]).operator == op_of_char(s[i])
    &&& forall|i: int|
        0 <= i < k && s[i] != '[' && s[i] != ']' ==> (#[trigger] ins[i]).operand == 0
    &&& forall|j: int|
        #![trigger ins[j]]
        0 <= j < k && s[j] == ']' ==> {
            &&& open_brackets(s, j).len() > 0
            &&& ins[j].operand == partner_of_close(s, j)
            &&& ins[partner_of_close(s, j)].operand == j
        }
    &&& forall|i: int|
        0 <= i < k && s[i] == '[' && (#[trigger] open_brackets(s, k).contains(i))
            ==> ins[i].operand == 0
}

/// The open positions are increasing, lie before `k`, and hold `[`.
pub proof fn lemma_open_brackets_shape(s: Seq<char>, k: int)
    requires
        0 <= k <= s.len(),
    ensures
        forall|a: int, b: int|
            0 <= a < b < open_brackets(s, k).len() ==> #[trigger] open_brackets(s, k)[a]
                < #[trigger] open_brackets(s, k)[b],
        forall|a: int|
            0 <= a < open_brackets(s, k).len() ==> 0 <= #[trigger] open_brackets(s, k)[a] < k
                && s[open_brackets(s, k)[a]] == '[',
    decreases k,
{
    if k > 0 {
        lemma_open_brackets_shape(s, k - 1);
        let st = open_brackets(s, k - 1);
        let nt = open_brackets(s, k);
        assert forall|a: int| 0 <= a < nt.len() && a < st.len() implies #[trigger] nt[a]
            == st[a] by {}
        assert forall|a: int, b: int| 0 <= a < b < nt.len() implies #[trigger] nt[a]
            < #[trigger] nt[b] by {
            if b < st.len() {
                assert(nt[b] == st[b]);
            }
        }
    }
}

/// After position `j`, every open position is either one that was open just
/// after `j` or lies after `j`.
proof fn lemma_open_after(s: Seq<char>, j: int, k: int)
    requires
        0 <= j < k <= s.len(),
    ensures
        forall|a: int|
            0 <= a < open_brackets(s, k).len() ==> open_brackets(s, j + 1).contains(
                #[trigger] open_brackets(s, k)[a],
            ) || open_brackets(s, k)[a] > j,
    decreases k,
{
    if k > j + 1 {
        lemma_open_after(s, j, k - 1);
        let st = open_brackets(s, k - 1);
        let nt = open_brackets(s, k);
        assert forall|a: int| 0 <= a < nt.len() implies open_brackets(s, j + 1).contains(
            #[trigger] nt[a],
        ) || nt[a] > j by {
            if a < st.len() {
                assert(nt[a] == st[a]);
            }
        }
    } else {
        assert forall|a: int| 0 <= a < open_brackets(s, k).len() implies open_brackets(
            s,
            j + 1,
        ).contains(#[trigger] open_brackets(s, k)[a]) || open_brackets(s, k)[a] > j by {
            assert(open_brackets(s, j + 1)[a] == open_brackets(s, k)[a]);
        }
    }
}

/// A `[` that a `]` has closed is never open again.
pub proof fn lemma_closed_stays_closed(s: Seq<char>, j: int, k: int)
    requires
        0 <= j < k <= s.len(),
        s[j] == ']',
        open_brackets(s, j).len() > 0,
    ensures
        !open_brackets(s, k).contains(partner_of_close(s, j)),
{
    let p = partner_of_close(s, j);
    let st = open_brackets(s, j);
    lemma_open_brackets_shape(s, j);
    lemma_open_after(s, j, k);
    assert(open_brackets(s, j + 1) == st.drop_last());
    if open_brackets(s, k).contains(p) {
        let ob = open_brackets(s, k);
        let a = choose|a: int| 0 <= a < ob.len() && ob[a] == p;
        assert(ob[a] == p);
        assert(p < j);
        let dl = st.drop_last();
        let b = choose|b: int| 0 <= b < dl.len() && dl[b] == p;
        assert(st[b] == p && st[st.len() - 1] == p);
        assert(false);
    }
}

/// Every `[` is either still open or was closed by exactly one later `]`.
pub proof fn lemma_open_or_closed(s: Seq<char>, i: int, k: int)
    requires
        0 <= i < k <= s.len(),
        s[i] == '[',
    ensures
        open_brackets(s, k).contains(i) || exists|j: int|
            i < j < k && s[j] == ']' && open_brackets(s, j).len() > 0 && #[trigger] partner_of_close(
                s,
                j,
            ) == i,
    decreases k,
{
    if k == i + 1 {
        assert(open_brackets(s, k).last() == i);
    } else {
        lemma_open_or_closed(s, i, k - 1);
        let st = open_brackets(s, k - 1);
        if st.contains(i) {
            let a = choose|a: int| 0 <= a < st.len() && st[a] == i;
            if s[k - 1] == '[' {
                assert(open_brackets(s, k)[a] == i);
            } else if s[k - 1] == ']' && st.len() > 0 {
                if a == st.len() - 1 {
                    assert(partner_of_close(s, k - 1) == i);
                } else {
                    assert(open_brackets(s, k)[a] == i);
                }
            }
        }
    }
}

/// The scan for the end of the code never moves backwards.
proof fn lemma_code_len_from_at_least(s: Seq<char>, i: int)
    requires
        0 <= i <= s.len(),
    ensures
        i <= code_len_from(s, i) <= s.len(),
    decreases s.len() - i,
{
    if i < s.len() && is_instruction_char(s[i]) {
        lemma_code_len_from_at_least(s, i + 1);
    }
}

/// Compiling one more instruction that is not a bracket.
proof fn lemma_step_plain(s: Seq<char>, k: int, before: Seq<Instruction>, after: Seq<Instruction>)
    requires
        0 <= k < s.len(),
        k < PROGRAM_CAPACITY,
        compiled_as(s, k, before),
        s[k] != '[',
        s[k] != ']',
        after == before.update(k, Instruction { operator: op_of_char(s[k]), operand: 0 }),
    ensures
        compiled_as(s, k + 1, after),
{
    reveal(compiled_as);
    assert(open_brackets(s, k + 1) == open_brackets(s, k));
    assert forall|j: int|
        #![trigger after[j]]
        0 <= j < k + 1 && s[j] == ']' implies {
        &&& open_brackets(s, j).len() > 0
        &&& after[j].operand == partner_of_close(s, j)
        &&& after[partner_of_close(s, j)].operand == j
    } by {
        lemma_open_brackets_shape(s, j);
        assert(before[j].operand == partner_of_close(s, j));
    }
}

/// Compiling one more `[`.
proof fn lemma_step_open(s: Seq<char>, k: int, before: Seq<Instruction>, after: Seq<Instruction>)
    requires
        0 <= k < s.len(),
        k < PROGRAM_CAPACITY,
        compiled_as(s, k, before),
        s[k] == '[',
        after == before.update(k, Instruction { operator: Op::JmpFwd, operand: 0 }),
    ensures
        compiled_as(s, k + 1, after),
{
    reveal(compiled_as);
    lemma_open_brackets_shape(s, k);
    assert(open_brackets(s, k + 1) == open_brackets(s, k).push(k));
    assert forall|j: int|
        #![trigger after[j]]
        0 <= j < k + 1 && s[j] == ']' implies {
        &&& open_brackets(s, j).len() > 0
        &&& after[j].operand == partner_of_close(s, j)
        &&& after[partner_of_close(s, j)].operand == j
    } by {
        lemma_open_brackets_shape(s, j);
        assert(before[j].operand == partner_of_close(s, j));
    }
    assert forall|i: int|
        0 <= i < k + 1 && s[i] == '[' && (#[trigger] open_brackets(s, k + 1).contains(
            i,
        )) implies after[i].operand == 0 by {
        if i < k {
            let ob = open_brackets(s, k + 1);
            let a = choose|a: int| 0 <= a < ob.len() && ob[a] == i;
            assert(open_brackets(s, k).contains(i)) by {
                assert(open_brackets(s, k)[a] == i);
            }
        }
    }
}

/// Compiling one more `]` that closes the last open `[`.
proof fn lemma_step_close(s: Seq<char>, k: int, before: Seq<Instruction>, after: Seq<Instruction>)
    requires
        0 <= k < s.len(),
        k < PROGRAM_CAPACITY,
        compiled_as(s, k, before),
        s[k] == ']',
        open_brackets(s, k).len() > 0,
        after == before.update(
            k,
            Instruction { operator: Op::JmpBck, operand: partner_of_close(s, k) as u32 },
        ).update(
            partner_of_close(s, k),
            Instruction {
                operator: before[partner_of_close(s, k)].operator,
                operand: k as u32,
            },
        ),
    ensures
        compiled_as(s, k + 1, after),
{
    reveal(compiled_as);
    let st = open_brackets(s, k);
    let p = partner_of_close(s, k);
    lemma_open_brackets_shape(s, k);
    assert(st[st.len() - 1] == p);
    assert(0 <= p < k && s[p] == '[');
    assert(open_brackets(s, k + 1) == st.drop_last());
    assert forall|i: int| k + 1 <= i < PROGRAM_CAPACITY implies #[trigger] after[i]
        == end_instruction() by {}
    assert forall|i: int| 0 <= i < k + 1 implies (#[trigger] after[i]).operator == op_of_char(
        s[i],
    ) by {}
    assert forall|j: int|
        #![trigger after[j]]
        0 <= j < k + 1 && s[j] == ']' implies {
        &&& open_brackets(s, j).len() > 0
        &&& after[j].operand == partner_of_close(s, j)
        &&& after[partner_of_close(s, j)].operand == j
    } by {
        if j < k {
            lemma_closed_stays_closed(s, j, k);
            lemma_open_brackets_shape(s, j);
            assert(st.contains(p));
        }
    }
    assert forall|i: int|
        0 <= i < k + 1 && s[i] == '[' && (#[trigger] open_brackets(s, k + 1).contains(
            i,
        )) implies after[i].operand == 0 by {
        let ob = open_brackets(s, k + 1);
        let a = choose|a: int| 0 <= a < ob.len() && ob[a] == i;
        assert(st[a] == i);
        assert(st.contains(i));
        assert(i < p);
    }
}

/// Compiling is deterministic: the description that `compile` meets leaves
/// exactly one program for a given source text.
pub proof fn lemma_compile_deterministic(s: Seq<char>, a: Seq<Instruction>, b: Seq<Instruction>)
    requires
        compiled_as(s, code_len(s), a),
        compiled_as(s, code_len(s), b),
    ensures
        a == b,
{
    reveal(compiled_as);
    let n = code_len(s);
    lemma_code_len_from_at_least(s, 0);
    assert forall|i: int| 0 <= i < a.len() implies #[trigger] a[i] == b[i] by {
        if i < n {
            if s[i] == '[' {
                lemma_open_or_closed(s, i, n);
                if !open_brackets(s, n).contains(i) {
                    let j = choose|j: int|
                        i < j < n && s[j] == ']' && open_brackets(s, j).len() > 0
                            && #[trigger] partner_of_close(s, j) == i;
                    assert(a[j].operand == partner_of_close(s, j));
                    assert(b[j].operand == partner_of_close(s, j));
                }
            } else if s[i] == ']' {
                assert(a[i].operand == partner_of_close(s, i));
                assert(b[i].operand == partner_of_close(s, i));
            }
        }
    }
    assert(a =~= b);
}

/// Compiles source text into a program.
///
/// Compilation stops without error at the first character that is not one of
/// `><+-.,[]`. It fails with `UnmatchedCloseBracket` when a compiled `]` has
/// no open `[` before it, and otherwise with `ProgramOverflow` when the
/// compiled text holds more instructions than a program has slots.
pub fn compile(file: &str) -> (r: Result<Program, CompileError>)
    ensures
        ({
            let s = file@;
            let n = code_len(s);
            let m = scan_limit(s);
            &&& (r matches Err(CompileError::UnmatchedCloseBracket) <==> has_unmatched_close(
                s,
                m,
            ))
            &&& (r matches Err(CompileError::ProgramOverflow) <==> !has_unmatched_close(s, m)
                && n > PROGRAM_CAPACITY)
            &&& (r matches Ok(p) ==> p.wf() && compiled_as(s, n, p@))
        }),
{
    let ghost s = file@;
    let mut program = Program::new();
    let mut stack: Vec<usize> = Vec::new();
    let mut pc: usize = 0;
    let mut stopped = false;
    proof {
        reveal(compiled_as);
    }
    for c in it: file.chars()
        invariant
            it.seq() == s,
            s == file@,
            0 <= pc <= it.index(),
            !stopped ==> pc == it.index(),
            stopped ==> pc < s.len() && !is_instruction_char(s[pc as int]),
            pc <= PROGRAM_CAPACITY,
            forall|i: int| 0 <= i < pc ==> is_instruction_char(#[trigger] s[i]),
            code_len(s) == code_len_from(s, pc as int),
            program.wf(),
            compiled_as(s, pc as int, program@),
            !has_unmatched_close(s, pc as int),
            stack@.len() == open_brackets(s, pc as int).len(),
            forall|a: int|
                0 <= a < stack@.len() ==> stack@[a] as int == #[trigger] open_brackets(
                    s,
                    pc as int,
                )[a],
    {
        if !stopped {
            let ghost k = pc as int;
            let ghost before = program@;
            proof {
                lemma_open_brackets_shape(s, k);
            }
            let op = decode(c);
            if op == Op::End {
                stopped = true;
            } else {
                proof {
                    assert(c == s[k]);
                    assert(is_instruction_char(s[k]));
                    lemma_code_len_from_at_least(s, k + 1);
                    assert(code_len(s) == code_len_from(s, k + 1));
                    assert(code_len(s) > k);
                }
                if pc == PROGRAM_CAPACITY {
                    proof {
                        assert(!has_unmatched_close(s, PROGRAM_CAPACITY as int));
                        assert(code_len(s) > PROGRAM_CAPACITY);
                        assert(scan_limit(s) == PROGRAM_CAPACITY);
                        assert(!has_unmatched_close(s, scan_limit(s)));
                    }
                    return Err(CompileError::ProgramOverflow);
                }
                if op == Op::JmpFwd {
                    program.ins.set(pc, Instruction { operator: op, operand: 0 });
                    stack.push(pc);
                    proof {
                        lemma_step_open(s, k, before, program@);
                    }
                } else if op == Op::JmpBck {
                    if stack.len() == 0 {
                        proof {
                            assert(s[k] == ']' && open_brackets(s, k).len() == 0);
                            assert(k < scan_limit(s));
                            assert(has_unmatched_close(s, scan_limit(s)));
                        }
                        return Err(CompileError::UnmatchedCloseBracket);
                    }
                    let p = stack.pop().unwrap();
                    proof {
                        assert(p as int == partner_of_close(s, k));
                    }
                    program.ins.set(pc, Instruction { operator: op, operand: p as u32 });
                    let old_op = program.ins[p].operator;
                    program.ins.set(p, Instruction { operator: old_op, operand: pc as u32 });
                    proof {
                        lemma_step_close(s, k, before, program@);
                        assert(open_brackets(s, k + 1) == open_brackets(s, k).drop_last());
                    }
                } else {
                    program.ins.set(pc, Instruction { operator: op, operand: 0 });
                    proof {
                        lemma_step_plain(s, k, before, program@);
                    }
                }
                pc = pc + 1;
                proof {
                    assert(!has_unmatched_close(s, pc as int)) by {
                        if has_unmatched_close(s, pc as int) {
                            let j = choose|j: int|
                                0 <= j < pc && s[j] == ']' && (#[trigger] open_brackets(
                                    s,
                                    j,
                                )).len() == 0;
                            assert(j == k);
                        }
                    }
                }
            }
        }
    }
    proof {
        assert(code_len(s) == pc as int);
    }
    Ok(program)
}

} // verus!
