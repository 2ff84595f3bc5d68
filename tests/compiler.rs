use bfvm::compiler::{compile, CompileError};
use bfvm::program::{decode, Instruction, Op, Program, PROGRAM_CAPACITY};

fn ops(p: &Program, n: usize) -> Vec<Op> {
    p.ins[..n].iter().map(|i| i.operator).collect()
}

#[test]
fn increments_then_output() {
    let p = compile("++.").unwrap();
    assert_eq!(ops(&p, 4), vec![Op::IncVal, Op::IncVal, Op::Out, Op::End]);
    assert!(p.ins.iter().all(|i| i.operand == 0));
}

#[test]
fn loop_jumps_point_at_each_other() {
    let p = compile("+[-]").unwrap();
    assert_eq!(ops(&p, 5), vec![Op::IncVal, Op::JmpFwd, Op::DecVal, Op::JmpBck, Op::End]);
    assert_eq!(p.ins[1].operand, 3);
    assert_eq!(p.ins[3].operand, 1);
}

#[test]
fn nested_loops_match_innermost_first() {
    let p = compile("[[]][]").unwrap();
    assert_eq!(p.ins[0].operand, 3);
    assert_eq!(p.ins[3].operand, 0);
    assert_eq!(p.ins[1].operand, 2);
    assert_eq!(p.ins[2].operand, 1);
    assert_eq!(p.ins[4].operand, 5);
    assert_eq!(p.ins[5].operand, 4);
    assert_eq!(p.ins[6].operator, Op::End);
}

#[test]
fn input_then_output() {
    let p = compile(",.").unwrap();
    assert_eq!(ops(&p, 3), vec![Op::In, Op::Out, Op::End]);
}

#[test]
fn stray_character_stops_compilation() {
    let p = compile("+x+.").unwrap();
    assert_eq!(ops(&p, 2), vec![Op::IncVal, Op::End]);
    assert!(p.ins[1..].iter().all(|i| *i == Instruction::default()));
}

#[test]
fn unmatched_close_bracket_fails() {
    assert_eq!(compile("]").unwrap_err(), CompileError::UnmatchedCloseBracket);
    assert_eq!(compile("+[]]").unwrap_err(), CompileError::UnmatchedCloseBracket);
}

#[test]
fn unmatched_close_after_stray_character_is_ignored() {
    assert!(compile("+ ]").is_ok());
}

#[test]
fn unclosed_open_bracket_keeps_zero_operand() {
    let p = compile("[+").unwrap();
    assert_eq!(p.ins[0].operator, Op::JmpFwd);
    assert_eq!(p.ins[0].operand, 0);
}

#[test]
fn too_many_instructions_overflow() {
    let full = "+".repeat(PROGRAM_CAPACITY);
    assert!(compile(&full).is_ok());
    let over = "+".repeat(PROGRAM_CAPACITY + 1);
    assert_eq!(compile(&over).unwrap_err(), CompileError::ProgramOverflow);
}

#[test]
fn unmatched_close_reported_before_overflow() {
    let mut src = String::from("]");
    src.push_str(&"+".repeat(PROGRAM_CAPACITY + 5));
    assert_eq!(compile(&src).unwrap_err(), CompileError::UnmatchedCloseBracket);
}

#[test]
fn compiling_twice_gives_same_program() {
    let src = "+[->+<]>.[,.]";
    let a = compile(src).unwrap();
    let b = compile(src).unwrap();
    assert_eq!(a.ins, b.ins);
}

#[test]
fn empty_source_is_all_end() {
    let p = compile("").unwrap();
    assert_eq!(p.ins.len(), PROGRAM_CAPACITY);
    assert!(p.ins.iter().all(|i| *i == Instruction::default()));
    let fresh = Program::new();
    assert_eq!(fresh.ins, p.ins);
}

#[test]
fn decode_covers_all_instructions() {
    let pairs = [
        ('>', Op::IncDp),
        ('<', Op::DecDp),
        ('+', Op::IncVal),
        ('-', Op::DecVal),
        ('.', Op::Out),
        (',', Op::In),
        ('[', Op::JmpFwd),
        (']', Op::JmpBck),
        ('a', Op::End),
    ];
    for (c, op) in pairs {
        assert_eq!(decode(c), op);
    }
}
