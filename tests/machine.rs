use bfvm::compiler::compile;
use bfvm::machine::{give_input, new_machine, step, Machine, Step, TAPE_CAPACITY};
use bfvm::program::{Instruction, Op, Program};

/// Runs a program to its end, feeding `inputs` in order; returns the outputs
/// and the finished machine.
fn run_with(p: &Program, inputs: &[i32], max_steps: usize) -> (Vec<i32>, Machine) {
    let mut m = new_machine();
    let mut out = Vec::new();
    let mut next = 0;
    for _ in 0..max_steps {
        match step(&mut m, p) {
            Step::Running => {}
            Step::Output(v) => out.push(v),
            Step::NeedInput => {
                give_input(&mut m, inputs[next]);
                next += 1;
            }
            Step::Halted => return (out, m),
        }
    }
    panic!("program did not halt");
}

#[test]
fn two_increments_output_two() {
    let p = compile("++.").unwrap();
    let (out, _) = run_with(&p, &[], 100);
    assert_eq!(out, vec![2]);
}

#[test]
fn clearing_loop_gives_no_output() {
    let p = compile("+[-]").unwrap();
    let (out, m) = run_with(&p, &[], 100);
    assert!(out.is_empty());
    assert_eq!(m.tape[0], 0);
    assert_eq!(m.pc, 4);
}

#[test]
fn input_is_stored_and_echoed() {
    let p = compile(",.").unwrap();
    let (out, _) = run_with(&p, &[5], 100);
    assert_eq!(out, vec![5]);
}

#[test]
fn stray_character_truncates_execution() {
    let p = compile("+x+.").unwrap();
    let (out, m) = run_with(&p, &[], 100);
    assert!(out.is_empty());
    assert_eq!(m.tape[0], 1);
    let q = compile("+.x+.").unwrap();
    let (out, _) = run_with(&q, &[], 100);
    assert_eq!(out, vec![1]);
}

#[test]
fn pointer_past_tape_end_halts() {
    let p = compile("+[>+]").unwrap();
    let (out, m) = run_with(&p, &[], 10 * TAPE_CAPACITY);
    assert!(out.is_empty());
    assert_eq!(m.ptr, TAPE_CAPACITY);
    assert_eq!(m.tape.len(), TAPE_CAPACITY);
    assert!(m.tape.iter().all(|c| *c == 1));
}

#[test]
fn pointer_below_zero_halts() {
    let p = compile("+<+.").unwrap();
    let (out, m) = run_with(&p, &[], 100);
    assert!(out.is_empty());
    assert_eq!(m.ptr, 0);
    assert_eq!(m.pc, 1);
    assert_eq!(m.tape[0], 1);
}

#[test]
fn cells_wrap_around() {
    let p = compile(",+.-.").unwrap();
    let (out, _) = run_with(&p, &[i32::MAX], 100);
    assert_eq!(out, vec![i32::MIN, i32::MAX]);
    let q = compile("-.").unwrap();
    let (out, _) = run_with(&q, &[], 100);
    assert_eq!(out, vec![-1]);
}

#[test]
fn nested_loops_run() {
    // 3 * 2 = 6 computed into the second cell.
    let p = compile("+++[>++<-]>.").unwrap();
    let (out, _) = run_with(&p, &[], 1000);
    assert_eq!(out, vec![6]);
}

#[test]
fn halted_machine_stays_put() {
    let p = Program::new();
    let mut m = new_machine();
    assert_eq!(step(&mut m, &p), Step::Halted);
    assert_eq!(step(&mut m, &p), Step::Halted);
    assert_eq!(m.pc, 0);
    assert_eq!(m.ptr, 0);
}

#[test]
fn input_step_waits_until_given() {
    let p = compile(",").unwrap();
    let mut m = new_machine();
    assert_eq!(step(&mut m, &p), Step::NeedInput);
    assert_eq!(m.pc, 0);
    give_input(&mut m, -7);
    assert_eq!(m.tape[0], -7);
    assert_eq!(m.pc, 1);
    assert_eq!(step(&mut m, &p), Step::Halted);
}

#[test]
fn operation_names() {
    assert_eq!(Op::End.name(), "Op::End");
    assert_eq!(Op::JmpFwd.name(), "Op::JMP_FWD");
    assert_eq!(Op::JmpBck.name(), "Op::JmpBck");
    assert_eq!(Op::IncVal.name(), "Op::IncVal");
}

#[test]
fn dump_lists_instructions_and_end() {
    let p = compile("+[-]").unwrap();
    assert_eq!(
        p.dump(),
        "0: Op::IncVal, 0\n1: Op::JMP_FWD, 3\n2: Op::DecVal, 0\n3: Op::JmpBck, 1\n4: Op::End, 0\n"
    );
}

#[test]
fn dump_of_empty_program() {
    let p = compile("").unwrap();
    assert_eq!(p.dump(), "0: Op::End, 0\n");
}

#[test]
fn dump_renders_multi_digit_numbers() {
    let mut p = Program::new();
    for i in 0..12 {
        p.ins[i] = Instruction { operator: Op::Out, operand: 0 };
    }
    p.ins[10].operand = 1234;
    let d = p.dump();
    assert!(d.contains("10: Op::Out, 1234\n"));
    assert!(d.ends_with("11: Op::Out, 0\n12: Op::End, 0\n"));
}
