use std::collections::HashMap;

use vm_translator::instruction::{Instruction, Op};
use vm_translator::memory_segments::Segment;
use vm_translator::parser::parse_line;
use vm_translator::writer::{Error, FunctionFrame, Writer};

/// Translates the lines of one source file and returns the target text.
fn translate_lines(file: &str, source: &[&str]) -> String {
    let mut w = Writer::new(file);
    let mut out = String::new();
    for line in source {
        if let Some(ins) = parse_line(line).expect("valid line") {
            w.translate(&ins).expect("translatable instruction");
            out.push_str(&w.flush());
        }
    }
    out
}

/// A target machine: runs the text from address 0 until it runs off the
/// end of the program.
struct Machine {
    ram: Vec<i16>,
}

impl Machine {
    fn new() -> Machine {
        let mut ram = vec![0i16; 32768];
        ram[0] = 256;
        ram[1] = 300;
        ram[2] = 400;
        ram[3] = 3000;
        ram[4] = 3010;
        Machine { ram }
    }

    fn run(&mut self, program: &str) {
        let mut rom: Vec<&str> = Vec::new();
        let mut labels: HashMap<&str, i16> = HashMap::new();
        for line in program.lines() {
            if line.starts_with('(') {
                labels.insert(&line[1..line.len() - 1], rom.len() as i16);
            } else {
                rom.push(line);
            }
        }
        let mut vars: HashMap<&str, i16> = HashMap::new();
        let (mut a, mut d, mut pc): (i16, i16, usize) = (0, 0, 0);
        let mut steps = 0;
        while pc < rom.len() {
            steps += 1;
            assert!(steps < 100_000, "program does not stop");
            let ins = rom[pc];
            pc += 1;
            if let Some(sym) = ins.strip_prefix('@') {
                a = match sym {
                    "SP" => 0,
                    "LCL" => 1,
                    "ARG" => 2,
                    "THIS" => 3,
                    "THAT" => 4,
                    _ => match sym.parse::<i16>() {
                        Ok(n) => n,
                        Err(_) => match labels.get(sym) {
                            Some(&l) => l,
                            None => {
                                let next = 16 + vars.len() as i16;
                                *vars.entry(sym).or_insert(next)
                            }
                        },
                    },
                };
                continue;
            }
            let (dest, rest) = match ins.split_once('=') {
                Some((dest, rest)) => (dest, rest),
                None => ("", ins),
            };
            let (comp, jump) = match rest.split_once(';') {
                Some((comp, jump)) => (comp, jump),
                None => (rest, ""),
            };
            let m = self.ram[a as u16 as usize];
            let v: i16 = match comp {
                "0" => 0,
                "-1" => -1,
                "A" => a,
                "D" => d,
                "M" => m,
                "-M" => m.wrapping_neg(),
                "!M" => !m,
                "M+1" => m.wrapping_add(1),
                "M-1" => m.wrapping_sub(1),
                "D+A" => d.wrapping_add(a),
                "D+M" => d.wrapping_add(m),
                "D-A" => d.wrapping_sub(a),
                "M-D" => m.wrapping_sub(d),
                "D&M" => d & m,
                "D|M" => d | m,
                other => panic!("unknown expression {other}"),
            };
            if dest.contains('M') {
                self.ram[a as u16 as usize] = v;
            }
            if dest.contains('D') {
                d = v;
            }
            let target = a;
            if dest.contains('A') {
                a = v;
            }
            let taken = match jump {
                "" => false,
                "JEQ" => v == 0,
                "JLT" => v < 0,
                "JGT" => v > 0,
                "JNE" => v != 0,
                "JMP" => true,
                other => panic!("unknown jump {other}"),
            };
            if taken {
                pc = target as u16 as usize;
            }
        }
    }

    fn sp(&self) -> i16 {
        self.ram[0]
    }

    fn top(&self) -> i16 {
        self.ram[self.sp() as usize - 1]
    }
}

fn run_lines(source: &[&str]) -> Machine {
    let text = translate_lines("Main", source);
    let mut m = Machine::new();
    m.run(&text);
    m
}

#[test]
fn test_push_instruction() {
    let text = translate_lines("Main", &["push constant 7"]);
    assert_eq!(text, "@7\nD=A\n@SP\nA=M\nM=D\n@SP\nM=M+1\n");
    let text = translate_lines("Main", &["push local 2"]);
    assert_eq!(text, "@2\nD=A\n@LCL\nA=D+M\nD=M\n@SP\nA=M\nM=D\n@SP\nM=M+1\n");
    let text = translate_lines("Main", &["push temp 1"]);
    assert_eq!(text, "@1\nD=A\n@5\nA=D+A\nD=M\n@SP\nA=M\nM=D\n@SP\nM=M+1\n");
    let mut m = Machine::new();
    m.ram[302] = 44;
    m.run(&translate_lines("Main", &["push local 2"]));
    assert_eq!(m.sp(), 257);
    assert_eq!(m.top(), 44);
}

#[test]
fn test_pop_instruction() {
    let text = translate_lines("Main", &["pop argument 1"]);
    assert_eq!(
        text,
        "@ARG\nD=M\n@1\nD=D+A\n@SP\nA=M\nM=D\n@SP\nM=M-1\nA=M\nD=M\n@SP\nA=M+1\nA=M\nM=D\n"
    );
    let m = run_lines(&["push constant 9", "pop argument 1", "push constant 4", "pop temp 3"]);
    assert_eq!(m.sp(), 256);
    assert_eq!(m.ram[401], 9);
    assert_eq!(m.ram[8], 4);
}

#[test]
fn test_eq_instruction() {
    let m = run_lines(&["push constant 4", "push constant 4", "eq"]);
    assert_eq!((m.sp(), m.top()), (257, -1));
    let m = run_lines(&["push constant 4", "push constant 5", "eq"]);
    assert_eq!((m.sp(), m.top()), (257, 0));
}

#[test]
fn test_lt_instruction() {
    let m = run_lines(&["push constant 3", "push constant 5", "lt"]);
    assert_eq!((m.sp(), m.top()), (257, -1));
    let m = run_lines(&["push constant 5", "push constant 3", "lt"]);
    assert_eq!((m.sp(), m.top()), (257, 0));
}

#[test]
fn test_gt_instruction() {
    let m = run_lines(&["push constant 5", "push constant 3", "gt"]);
    assert_eq!((m.sp(), m.top()), (257, -1));
    let m = run_lines(&["push constant 3", "push constant 3", "gt"]);
    assert_eq!((m.sp(), m.top()), (257, 0));
}

#[test]
fn test_gte_instruction() {
    // x >= y is not (x < y).
    let m = run_lines(&["push constant 5", "push constant 3", "lt", "not"]);
    assert_eq!((m.sp(), m.top()), (257, -1));
    let m = run_lines(&["push constant 3", "push constant 3", "lt", "not"]);
    assert_eq!((m.sp(), m.top()), (257, -1));
    let m = run_lines(&["push constant 2", "push constant 3", "lt", "not"]);
    assert_eq!((m.sp(), m.top()), (257, 0));
}

#[test]
fn test_lte_instruction() {
    // x <= y is not (x > y).
    let m = run_lines(&["push constant 3", "push constant 5", "gt", "not"]);
    assert_eq!((m.sp(), m.top()), (257, -1));
    let m = run_lines(&["push constant 6", "push constant 5", "gt", "not"]);
    assert_eq!((m.sp(), m.top()), (257, 0));
}

#[test]
fn test_and_instruction() {
    let m = run_lines(&["push constant 12", "push constant 10", "and"]);
    assert_eq!((m.sp(), m.top()), (257, 8));
}

#[test]
fn test_or_instruction() {
    let m = run_lines(&["push constant 12", "push constant 10", "or"]);
    assert_eq!((m.sp(), m.top()), (257, 14));
}

#[test]
fn add_leaves_the_sum() {
    let m = run_lines(&["push constant 7", "push constant 8", "add"]);
    assert_eq!(m.sp(), 257);
    assert_eq!(m.top(), 15);
}

#[test]
fn sub_neg_not_on_the_stack() {
    let m = run_lines(&["push constant 7", "push constant 8", "sub"]);
    assert_eq!((m.sp(), m.top()), (257, -1));
    let m = run_lines(&["push constant 7", "neg"]);
    assert_eq!((m.sp(), m.top()), (257, -7));
    let m = run_lines(&["push constant 0", "not"]);
    assert_eq!((m.sp(), m.top()), (257, -1));
}

#[test]
fn stack_height_of_each_operation() {
    for (op, delta) in [
        ("add", -1),
        ("sub", -1),
        ("and", -1),
        ("or", -1),
        ("eq", -1),
        ("lt", -1),
        ("gt", -1),
        ("neg", 0),
        ("not", 0),
    ] {
        let m = run_lines(&["push constant 1", "push constant 2", op]);
        assert_eq!(m.sp() as i32, 258 + delta, "{op}");
    }
}

#[test]
fn comparison_labels_are_distinct() {
    let text = translate_lines("Main", &["eq", "eq", "lt", "gt", "eq"]);
    let labels: Vec<&str> = text.lines().filter(|l| l.starts_with('(')).collect();
    assert_eq!(labels, vec!["(LABEL.0)", "(LABEL.1)", "(LABEL.2)", "(LABEL.3)", "(LABEL.4)"]);
    let many: Vec<&str> = vec!["eq"; 25];
    let text = translate_lines("Main", &many);
    let mut labels: Vec<&str> = text.lines().filter(|l| l.starts_with('(')).collect();
    labels.sort();
    labels.dedup();
    assert_eq!(labels.len(), 25);
}

#[test]
fn many_comparisons_evaluate_correctly() {
    let mut source = Vec::new();
    for _ in 0..12 {
        source.push("push constant 1");
        source.push("push constant 2");
        source.push("lt");
    }
    let m = run_lines(&source);
    assert_eq!(m.sp(), 268);
    for i in 256..268 {
        assert_eq!(m.ram[i], -1);
    }
}

#[test]
fn static_cells_are_named_by_file() {
    let foo = translate_lines("Foo", &["push static 3"]);
    let bar = translate_lines("Bar", &["pop static 3"]);
    assert!(foo.starts_with("@Foo.3\nD=M\n"));
    assert!(bar.starts_with("@Bar.3\nD=A\n"));
    assert!(!foo.contains("Bar.3"));
    assert!(!bar.contains("Foo.3"));
}

#[test]
fn pointer_offsets_select_this_and_that() {
    let zero = translate_lines("Main", &["pop pointer 0"]);
    let one = translate_lines("Main", &["pop pointer 1"]);
    assert_eq!(zero, "@SP\nM=M-1\nA=M\nD=M\n@THIS\nM=D\n");
    assert_eq!(one, "@SP\nM=M-1\nA=M\nD=M\n@THAT\nM=D\n");
    let m = run_lines(&["push constant 1234", "pop pointer 0", "push constant 99", "pop pointer 1"]);
    assert_eq!((m.ram[3], m.ram[4], m.sp()), (1234, 99, 256));
    let m = run_lines(&["push constant 8", "pop pointer 0", "push pointer 0"]);
    assert_eq!((m.sp(), m.top()), (257, 8));
}

#[test]
fn label_goto_and_if_goto() {
    assert_eq!(translate_lines("Main", &["label LOOP"]), "(LOOP)\n");
    assert_eq!(translate_lines("Main", &["goto LOOP"]), "@LOOP\n0;JMP\n");
    assert_eq!(translate_lines("Main", &["if-goto LOOP"]), "@SP\nM=M-1\nA=M\nD=M\n@LOOP\nD;JNE\n");
    // Sums 3 + 2 + 1 with a counted loop.
    let m = run_lines(&[
        "push constant 0",
        "pop local 0",
        "push constant 3",
        "pop local 1",
        "label LOOP",
        "push local 0",
        "push local 1",
        "add",
        "pop local 0",
        "push local 1",
        "push constant 1",
        "sub",
        "pop local 1",
        "push local 1",
        "if-goto LOOP",
        "push local 0",
    ]);
    assert_eq!((m.sp(), m.top()), (257, 6));
}

#[test]
fn call_and_return_leave_one_value() {
    let m = run_lines(&[
        "push constant 10",
        "push constant 20",
        "call add2 2",
        "goto END",
        "function add2 1",
        "push argument 0",
        "push argument 1",
        "add",
        "pop local 0",
        "push local 0",
        "return",
        "label END",
    ]);
    assert_eq!(m.sp(), 257);
    assert_eq!(m.top(), 30);
    assert_eq!((m.ram[1], m.ram[2], m.ram[3], m.ram[4]), (300, 400, 3000, 3010));
}

#[test]
fn call_without_arguments_keeps_the_return_address() {
    let m = run_lines(&[
        "call seven 0",
        "goto END",
        "function seven 0",
        "push constant 7",
        "return",
        "label END",
    ]);
    assert_eq!((m.sp(), m.top()), (257, 7));
    assert_eq!((m.ram[1], m.ram[2], m.ram[3], m.ram[4]), (300, 400, 3000, 3010));
}

#[test]
fn return_labels_are_distinct_within_a_function() {
    let text = translate_lines("Main", &["function Main.main 0", "call A.f 0", "call B.g 0"]);
    assert!(text.contains("(Main.main$ret.0)"));
    assert!(text.contains("(Main.main$ret.1)"));
    let text = translate_lines(
        "Main",
        &["function f 0", "call g 0", "function g 0", "call h 0", "function f 0", "call g 0"],
    );
    assert!(text.contains("(f$ret.0)"));
    assert!(text.contains("(g$ret.0)"));
}

#[test]
fn function_clears_its_locals() {
    let text = translate_lines("Main", &["function f 2"]);
    assert!(text.starts_with("(f)\n@SP\nD=M\n@LCL\nM=D\n@2\nD=A\n@END_LOOP_f\nD;JEQ\n"));
    let mut m = Machine::new();
    m.ram[256] = 5;
    m.ram[257] = 6;
    m.run(&text);
    assert_eq!((m.sp(), m.ram[256], m.ram[257], m.ram[1]), (258, 0, 0, 256));
}

#[test]
fn invalid_accesses_are_errors() {
    let mut w = Writer::new("Main");
    let pop_constant = Instruction::Pop { segment: Segment::Constant, offset: "1".to_string() };
    assert!(matches!(
        w.translate(&pop_constant),
        Err(Error::InvalidSegment { segment: Segment::Constant })
    ));
    let push_sp = Instruction::Push { segment: Segment::Sp, offset: "0".to_string() };
    assert!(matches!(w.translate(&push_sp), Err(Error::InvalidSegment { segment: Segment::Sp })));
    let call = Instruction::Call { function: "f".to_string(), n_args: "two".to_string() };
    assert!(matches!(w.translate(&call), Err(Error::ParseIntError(_))));
    let function = Instruction::Function { name: "f".to_string(), n_vars: "-1".to_string() };
    assert!(matches!(w.translate(&function), Err(Error::ParseIntError(_))));
    assert_eq!(w.flush(), "");
    assert_eq!(w.label_count, 0);
}

#[test]
fn counts_accept_a_plus_sign() {
    let mut w = Writer::new("Main");
    let call = Instruction::Call { function: "f".to_string(), n_args: "+12".to_string() };
    w.translate(&call).unwrap();
    assert!(w.flush().contains("@12\nD=A\n@5\nD=D+A\n@SP\nD=M-D\n@ARG\nM=D\n@f\n0;JMP\n($ret.0)\n"));
    assert_eq!(w.function_frames.call, 1);
}

#[test]
fn writer_state_follows_the_instructions() {
    let mut w = Writer::new("Main");
    w.translate(&Instruction::Arithmetic(Op::Eq)).unwrap();
    w.translate(&Instruction::Arithmetic(Op::Add)).unwrap();
    assert_eq!(w.label_count, 1);
    let f = Instruction::Function { name: "f".to_string(), n_vars: "0".to_string() };
    w.translate(&f).unwrap();
    w.translate(&Instruction::Call { function: "g".to_string(), n_args: "0".to_string() }).unwrap();
    assert_eq!(w.function_frames.call, 1);
    w.translate(&f).unwrap();
    assert_eq!(w.function_frames.call, 1);
    assert_eq!(w.current_function_executed, "f");
    assert_eq!(w.filename_without_extension, "Main");
    let frame = FunctionFrame::new("3".to_string());
    assert_eq!((frame.number_of_args.as_str(), frame.call), ("3", 0));
}
