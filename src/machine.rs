//! The machine that runs a compiled program, one instruction at a time.
//!
//! The machine never performs input or output itself: a step that prints
//! reports the value, and a step that reads stops and waits until the caller
//! hands the value over with `give_input`.
use vstd::prelude::*;
use crate::program::{PROGRAM_CAPACITY, Op, Instruction, Program};

verus! {

/// Number of cells on the tape.
pub const TAPE_CAPACITY: usize = 65535;

/// What one step did.
#[derive(Clone, Copy, Debug, PartialEq, Eq, Structural)]
pub enum Step {
    /// An instruction ran with no effect outside the machine.
    Running,
    /// An output instruction ran; the value is the current cell.
    Output(i32),
    /// The current instruction reads a value: call `give_input`.
    NeedInput,
    /// Execution is over; further steps change nothing.
    Halted,
}

/// Instruction index, data pointer and tape.
pub struct Machine {
    pub pc: usize,
    pub ptr: usize,
    pub tape: Vec<i32>,
}

impl Machine {
    /// The tape has its full size, and both indices stay within one past
    /// their bounds.
    pub open spec fn wf(&self) -> bool {
        &&& self.tape@.len() == TAPE_CAPACITY
        &&& self.pc <= PROGRAM_CAPACITY
        &&& self.ptr <= TAPE_CAPACITY
    }
}

/// Whether the machine in this state can run no further instruction: the
/// instruction index is past the program or at the end instruction, or the
/// data pointer is past the tape.
pub open spec fn halted_at(pc: int, ptr: int, ins: Seq<Instruction>) -> bool {
    ||| pc < 0
    ||| pc >= ins.len()
    ||| ins[pc].operator == Op::End
    ||| ptr < 0
    ||| ptr >= TAPE_CAPACITY
}

/// One step of execution: the next instruction index, data pointer and
/// tape, and what the step did.
pub open spec fn step_spec(pc: int, ptr: int, tape: Seq<i32>, ins: Seq<Instruction>) -> (
    int,
    int,
    Seq<i32>,
    Step,
) {
    if halted_at(pc, ptr, ins) {
        (pc, ptr, tape, Step::Halted)
    } else {
        let cell = tape[ptr];
        match ins[pc].operator {
            Op::IncDp => (pc + 1, ptr + 1, tape, Step::Running),
            Op::DecDp => if ptr == 0 {
                (pc, ptr, tape, Step::Halted)
            } else {
                (pc + 1, ptr - 1, tape, Step::Running)
            },
            Op::IncVal => (pc + 1, ptr, tape.update(ptr, cell.wrapping_add(1)), Step::Running),
            Op::DecVal => (pc + 1, ptr, tape.update(ptr, cell.wrapping_sub(1)), Step::Running),
            Op::Out => (pc + 1, ptr, tape, Step::Output(cell)),
            Op::In => (pc, ptr, tape, Step::NeedInput),
            Op::JmpFwd => if cell == 0 {
                (ins[pc].operand + 1, ptr, tape, Step::Running)
            } else {
                (pc + 1, ptr, tape, Step::Running)
            },
            Op::JmpBck => if cell != 0 {
                (ins[pc].operand + 1, ptr, tape, Step::Running)
            } else {
                (pc + 1, ptr, tape, Step::Running)
            },
            Op::End => (pc, ptr, tape, Step::Halted),
        }
    }
}

/// A machine at the first instruction, on the first cell of a zeroed tape.
pub fn new_machine() -> (m: Machine)
    ensures
        m.wf(),
        m.pc == 0,
        m.ptr == 0,
        forall|i: int| 0 <= i < TAPE_CAPACITY ==> m.tape@[i] == 0,
{
    let mut tape: Vec<i32> = Vec::new();
    while tape.len() < TAPE_CAPACITY
        invariant
            tape.len() <= TAPE_CAPACITY,
            forall|i: int| 0 <= i < tape.len() ==> tape@[i] == 0,
        decreases TAPE_CAPACITY - tape.len(),
    {
        tape.push(0);
    }
    Machine { pc: 0, ptr: 0, tape }
}

/// Runs the instruction at the current index, as `step_spec` describes.
pub fn step(m: &mut Machine, p: &Program) -> (a: Step)
    requires
        old(m).wf(),
        p.wf(),
    ensures
        final(m).wf(),
        (final(m).pc as int, final(m).ptr as int, final(m).tape@, a) == step_spec(
            old(m).pc as int,
            old(m).ptr as int,
            old(m).tape@,
            p@,
        ),
{
    if m.pc >= p.ins.len() || m.ptr >= TAPE_CAPACITY {
        return Step::Halted;
    }
    let ins = p.ins[m.pc];
    let cell = m.tape[m.ptr];
    match ins.operator {
        Op::End => Step::Halted,
        Op::IncDp => {
            m.ptr = m.ptr + 1;
            m.pc = m.pc + 1;
            Step::Running
        },
        Op::DecDp => {
            if m.ptr == 0 {
                Step::Halted
            } else {
                m.ptr = m.ptr - 1;
                m.pc = m.pc + 1;
                Step::Running
            }
        },
        Op::IncVal => {
            m.tape.set(m.ptr, cell.wrapping_add(1));
            m.pc = m.pc + 1;
            Step::Running
        },
        Op::DecVal => {
            m.tape.set(m.ptr, cell.wrapping_sub(1));
            m.pc = m.pc + 1;
            Step::Running
        },
        Op::Out => {
            m.pc = m.pc + 1;
            Step::Output(cell)
        },
        Op::In => Step::NeedInput,
        Op::JmpFwd => {
            if cell == 0 {
                m.pc = ins.operand as usize + 1;
            } else {
                m.pc = m.pc + 1;
            }
            Step::Running
        },
        Op::JmpBck => {
            if cell != 0 {
                m.pc = ins.operand as usize + 1;
            } else {
                m.pc = m.pc + 1;
            }
            Step::Running
        },
    }
}

/// Stores the value that an input instruction asked for in the current cell
/// and moves past that instruction.
pub fn give_input(m: &mut Machine, v: i32)
    requires
        old(m).wf(),
        (old(m).ptr as int) < TAPE_CAPACITY,
        (old(m).pc as int) < PROGRAM_CAPACITY,
    ensures
        final(m).wf(),
        final(m).tape@ == old(m).tape@.update(old(m).ptr as int, v),
        final(m).ptr == old(m).ptr,
        final(m).pc == old(m).pc + 1,
{
    m.tape.set(m.ptr, v);
    m.pc = m.pc + 1;
}

/// A step never reads or writes a cell at or past the end of the tape: it
/// changes at most the cell under the pointer, and only while that pointer
/// is on the tape; once the pointer is past the tape the machine is halted
/// and stays as it is.
pub proof fn lemma_step_stays_on_tape(pc: int, ptr: int, tape: Seq<i32>, ins: Seq<Instruction>)
    requires
        tape.len() == TAPE_CAPACITY,
    ensures
        ({
            let (npc, nptr, ntape, a) = step_spec(pc, ptr, tape, ins);
            &&& ntape.len() == TAPE_CAPACITY
            &&& forall|i: int| 0 <= i < TAPE_CAPACITY && i != ptr ==> #[trigger] ntape[i] == tape[i]
            &&& (ptr >= TAPE_CAPACITY ==> npc == pc && nptr == ptr && ntape == tape && a == Step::Halted)
            &&& (a == Step::Halted ==> npc == pc && nptr == ptr && ntape == tape)
        }),
{
}

} // verus!
