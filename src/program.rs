//! Instructions and the fixed-capacity program that holds them.
use vstd::prelude::*;
use vstd::string::StringExecFns;

verus! {

/// Number of instruction slots in every program.
pub const PROGRAM_CAPACITY: usize = 4096;

/// The operation carried by one instruction.
#[derive(Clone, Copy, Debug, PartialEq, Eq, Structural)]
pub enum Op {
    /// Sentinel that stops execution; also the fill of unused slots.
    End,
    IncDp,
    DecDp,
    IncVal,
    DecVal,
    Out,
    In,
    /// Forward jump: skips past the matching `]` when the cell is zero.
    JmpFwd,
    /// Backward jump: returns to just after the matching `[` when the cell is nonzero.
    JmpBck,
}

/// The name under which an operation appears in a program dump.
pub open spec fn op_name(op: Op) -> Seq<char> {
    match op {
        Op::End => "Op::End"@,
        Op::IncDp => "Op::IncDp"@,
        Op::DecDp => "Op::DecDp"@,
        Op::IncVal => "Op::IncVal"@,
        Op::DecVal => "Op::DecVal"@,
        Op::Out => "Op::Out"@,
        Op::In => "Op::In"@,
        Op::JmpFwd => "Op::JMP_FWD"@,
        Op::JmpBck => "Op::JmpBck"@,
    }
}

impl Op {
    /// The name of the operation, as a program dump shows it.
    pub fn name(&self) -> (r: &'static str)
        ensures
            r@ == op_name(*self),
    {
        match self {
            Op::End => "Op::End",
            Op::IncDp => "Op::IncDp",
            Op::DecDp => "Op::DecDp",
            Op::IncVal => "Op::IncVal",
            Op::DecVal => "Op::DecVal",
            Op::Out => "Op::Out",
            Op::In => "Op::In",
            Op::JmpFwd => "Op::JMP_FWD",
            Op::JmpBck => "Op::JmpBck",
        }
    }
}

/// One bytecode slot: an operation and the jump target used by the two jumps.
#[derive(Clone, Copy, Debug, PartialEq, Eq, Structural)]
pub struct Instruction {
    pub operator: Op,
    pub operand: u32,
}

/// The instruction that fills every slot that holds no compiled code.
pub open spec fn end_instruction() -> Instruction {
    Instruction { operator: Op::End, operand: 0 }
}

impl Default for Instruction {
    fn default() -> (r: Self)
        ensures
            r == end_instruction(),
    {
        Instruction { operator: Op::End, operand: 0 }
    }
}

/// The operation that a source character stands for, or `End` for a
/// character that is not one of the eight instructions.
pub open spec fn op_of_char(c: char) -> Op {
    if c == '>' {
        Op::IncDp
    } else if c == '<' {
        Op::DecDp
    } else if c == '+' {
        Op::IncVal
    } else if c == '-' {
        Op::DecVal
    } else if c == '.' {
        Op::Out
    } else if c == ',' {
        Op::In
    } else if c == '[' {
        Op::JmpFwd
    } else if c == ']' {
        Op::JmpBck
    } else {
        Op::End
    }
}

/// Whether a source character is one of the eight instructions.
pub open spec fn is_instruction_char(c: char) -> bool {
    op_of_char(c) != Op::End
}

/// Decodes one source character.
pub fn decode(c: char) -> (r: Op)
    ensures
        r == op_of_char(c),
{
    match c {
        '>' => Op::IncDp,
        '<' => Op::DecDp,
        '+' => Op::IncVal,
        '-' => Op::DecVal,
        '.' => Op::Out,
        ',' => Op::In,
        '[' => Op::JmpFwd,
        ']' => Op::JmpBck,
        _ => Op::End,
    }
}

/// The decimal digit character for `d`.
pub open spec fn digit_char(d: nat) -> char {
    if d == 0 {
        '0'
    } else if d == 1 {
        '1'
    } else if d == 2 {
        '2'
    } else if d == 3 {
        '3'
    } else if d == 4 {
        '4'
    } else if d == 5 {
        '5'
    } else if d == 6 {
        '6'
    } else if d == 7 {
        '7'
    } else if d == 8 {
        '8'
    } else {
        '9'
    }
}

/// The decimal representation of `n`, without leading zeros.
pub open spec fn decimal(n: nat) -> Seq<char>
    decreases n,
{
    if n < 10 {
        seq![digit_char(n)]
    } else {
        decimal(n / 10).push(digit_char(n % 10))
    }
}

/// Appends the decimal representation of `n`.
fn push_decimal(out: &mut String, n: u64)
    ensures
        final(out)@ == old(out)@ + decimal(n as nat),
    decreases n,
{
    if n >= 10 {
        push_decimal(out, n / 10);
    }
    let d = n % 10;
    proof {
        reveal_strlit("0");
        reveal_strlit("1");
        reveal_strlit("2");
        reveal_strlit("3");
        reveal_strlit("4");
        reveal_strlit("5");
        reveal_strlit("6");
        reveal_strlit("7");
        reveal_strlit("8");
        reveal_strlit("9");
    }
    if d == 0 {
        out.append("0");
    } else if d == 1 {
        out.append("1");
    } else if d == 2 {
        out.append("2");
    } else if d == 3 {
        out.append("3");
    } else if d == 4 {
        out.append("4");
    } else if d == 5 {
        out.append("5");
    } else if d == 6 {
        out.append("6");
    } else if d == 7 {
        out.append("7");
    } else if d == 8 {
        out.append("8");
    } else {
        out.append("9");
    }
}

/// One line of a program dump: `index: name, operand` and a newline.
pub open spec fn dump_line(i: nat, op: Op, operand: nat) -> Seq<char> {
    decimal(i) + ": "@ + op_name(op) + ", "@ + decimal(operand) + "\n"@
}

/// The dump of the slots from `i` on: one line per instruction up to the
/// first end instruction, and a last line for that end entry (or for the
/// slot just past the program when no end instruction is left).
pub open spec fn dump_from(ins: Seq<Instruction>, i: int) -> Seq<char>
    decreases ins.len() - i,
{
    if i < 0 || i >= ins.len() || ins[i].operator == Op::End {
        dump_line(if i < 0 { 0 } else { i as nat }, Op::End, 0)
    } else {
        dump_line(i as nat, ins[i].operator, ins[i].operand as nat) + dump_from(ins, i + 1)
    }
}

/// Appends one dump line.
fn push_line(out: &mut String, i: usize, op: Op, operand: u32)
    ensures
        final(out)@ == old(out)@ + dump_line(i as nat, op, operand as nat),
{
    let ghost start = out@;
    push_decimal(out, i as u64);
    out.append(": ");
    out.append(op.name());
    out.append(", ");
    push_decimal(out, operand as u64);
    out.append("\n");
    assert(out@ =~= start + dump_line(i as nat, op, operand as nat));
}

/// Reading a dump back recovers the operations: distinct operations have
/// distinct names, so the name on each line of `dump_from` fixes the
/// operation of that slot.
pub proof fn lemma_op_names_distinct(a: Op, b: Op)
    requires
        op_name(a) == op_name(b),
    ensures
        a == b,
{
    reveal_strlit("Op::End");
    reveal_strlit("Op::IncDp");
    reveal_strlit("Op::DecDp");
    reveal_strlit("Op::IncVal");
    reveal_strlit("Op::DecVal");
    reveal_strlit("Op::Out");
    reveal_strlit("Op::In");
    reveal_strlit("Op::JMP_FWD");
    reveal_strlit("Op::JmpBck");
    assert(op_name(a).len() == op_name(b).len());
    assert(op_name(a)[4] == op_name(b)[4]);
    assert(op_name(Op::End).len() == 7 && op_name(Op::End)[4] == 'E');
    assert(op_name(Op::IncDp).len() == 9 && op_name(Op::IncDp)[4] == 'I');
    assert(op_name(Op::DecDp).len() == 9 && op_name(Op::DecDp)[4] == 'D');
    assert(op_name(Op::IncVal).len() == 10 && op_name(Op::IncVal)[4] == 'I');
    assert(op_name(Op::DecVal).len() == 10 && op_name(Op::DecVal)[4] == 'D');
    assert(op_name(Op::Out).len() == 7 && op_name(Op::Out)[4] == 'O');
    assert(op_name(Op::In).len() == 6 && op_name(Op::In)[4] == 'I');
    assert(op_name(Op::JmpFwd).len() == 11 && op_name(Op::JmpFwd)[4] == 'J');
    assert(op_name(Op::JmpBck).len() == 10 && op_name(Op::JmpBck)[4] == 'J');
}

/// A program: exactly `PROGRAM_CAPACITY` instruction slots.
#[derive(Clone, Debug)]
pub struct Program {
    pub ins: Vec<Instruction>,
}

impl View for Program {
    type V = Seq<Instruction>;

    open spec fn view(&self) -> Seq<Instruction> {
        self.ins@
    }
}

impl Program {
    /// Every slot exists and every jump target names a slot.
    pub open spec fn wf(&self) -> bool {
        &&& self@.len() == PROGRAM_CAPACITY
        &&& forall|i: int| 0 <= i < self@.len() ==> (#[trigger] self@[i]).operand < PROGRAM_CAPACITY
    }

    /// A program whose every slot is the end instruction.
    pub fn new() -> (r: Program)
        ensures
            r.wf(),
            forall|i: int| 0 <= i < PROGRAM_CAPACITY ==> r@[i] == end_instruction(),
    {
        let mut ins: Vec<Instruction> = Vec::new();
        while ins.len() < PROGRAM_CAPACITY
            invariant
                ins.len() <= PROGRAM_CAPACITY,
                forall|i: int| 0 <= i < ins.len() ==> ins@[i] == end_instruction(),
            decreases PROGRAM_CAPACITY - ins.len(),
        {
            ins.push(Instruction::default());
        }
        Program { ins }
    }

    /// A human-readable listing: one line `index: name, operand` per
    /// instruction, up to and including the end entry.
    pub fn dump(&self) -> (r: String)
        ensures
            r@ == dump_from(self@, 0),
    {
        let mut out = String::new();
        let mut i: usize = 0;
        while i < self.ins.len() && self.ins[i].operator != Op::End
            invariant
                i <= self.ins.len(),
                forall|j: int| 0 <= j < i ==> (#[trigger] self@[j]).operator != Op::End,
                out@ + dump_from(self@, i as int) == dump_from(self@, 0),
            decreases self.ins.len() - i,
        {
            let ghost before = out@;
            let ins = self.ins[i];
            push_line(&mut out, i, ins.operator, ins.operand);
            assert(before + dump_from(self@, i as int) =~= out@ + dump_from(self@, i + 1));
            i = i + 1;
        }
        push_line(&mut out, i, Op::End, 0);
        assert(out@ =~= dump_from(self@, 0));
        out
    }
}

} // verus!
