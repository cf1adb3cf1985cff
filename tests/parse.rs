use vm_translator::instruction::{Instruction, Op};
use vm_translator::memory_segments::{segment_from_name, Segment};
use vm_translator::parser::{parse_line, Error};

fn wrong_syntax(line: &str) -> String {
    match parse_line(line) {
        Err(Error::WrongSyntax { expected }) => expected,
        other => panic!("{line}: {other:?}"),
    }
}

#[test]
fn test_filename_exist() {
    // Static cells take the name of the file they come from.
    let mut w = vm_translator::writer::Writer::new("Foo");
    let ins = parse_line("push static 3").unwrap().unwrap();
    w.translate(&ins).unwrap();
    assert!(w.flush().starts_with("@Foo.3\n"));
}

#[test]
fn test_unvalid_file_syntax() {
    assert!(matches!(
        parse_line("jump here"),
        Err(Error::UnknownInstruction { instruction }) if instruction == "jump"
    ));
    assert!(matches!(
        parse_line("push heap 1"),
        Err(Error::UnknownMemorySegement { memory_segment }) if memory_segment == "heap"
    ));
    assert_eq!(wrong_syntax("pop constant 1"), "push constant <i> instead of pop constant <i>");
    assert_eq!(wrong_syntax("push"), "push <segments> <i>");
    assert_eq!(wrong_syntax("pop local"), "pop <segments> <i>");
    assert_eq!(wrong_syntax("push local 1 2"), "push <segments> <i>");
    assert_eq!(wrong_syntax("label"), "label <destination>");
    assert_eq!(wrong_syntax("if-goto a b"), "if-goto <destination>");
    assert_eq!(wrong_syntax("call f"), "call <function> <n>");
    assert_eq!(wrong_syntax("function f"), "function <name> <n>");
    assert_eq!(wrong_syntax("add 1"), "add");
    assert_eq!(wrong_syntax("return 0"), "return");
}

#[test]
fn test_valid_file_syntax() {
    assert!(matches!(parse_line(""), Ok(None)));
    assert!(matches!(parse_line("   \t  \r\n"), Ok(None)));
    assert!(matches!(parse_line("// a comment"), Ok(None)));
    assert!(matches!(parse_line("  //indented comment"), Ok(None)));
    assert!(matches!(
        parse_line("  push   local\t2 // the second local\r\n"),
        Ok(Some(Instruction::Push { segment: Segment::Local, offset })) if offset == "2"
    ));
    assert!(matches!(
        parse_line("pop that 5"),
        Ok(Some(Instruction::Pop { segment: Segment::That, offset })) if offset == "5"
    ));
    assert!(matches!(parse_line("add"), Ok(Some(Instruction::Arithmetic(Op::Add)))));
    assert!(matches!(parse_line("not // flip"), Ok(Some(Instruction::Arithmetic(Op::Not)))));
    assert!(matches!(parse_line("return"), Ok(Some(Instruction::Return))));
    assert!(matches!(
        parse_line("if-goto END"),
        Ok(Some(Instruction::IfGoto(l))) if l == "END"
    ));
    assert!(matches!(
        parse_line("call Math.multiply 2"),
        Ok(Some(Instruction::Call { function, n_args })) if function == "Math.multiply" && n_args == "2"
    ));
    assert!(matches!(
        parse_line("function Main.main 3"),
        Ok(Some(Instruction::Function { name, n_vars })) if name == "Main.main" && n_vars == "3"
    ));
}

#[test]
fn every_operation_parses() {
    let ops = [
        ("add", Op::Add),
        ("sub", Op::Sub),
        ("neg", Op::Neg),
        ("eq", Op::Eq),
        ("lt", Op::Lt),
        ("gt", Op::Gt),
        ("and", Op::And),
        ("or", Op::Or),
        ("not", Op::Not),
    ];
    for (word, op) in ops {
        match parse_line(word) {
            Ok(Some(Instruction::Arithmetic(got))) => assert_eq!(got, op),
            other => panic!("{word}: {other:?}"),
        }
    }
}

#[test]
fn segment_table() {
    let names = [
        ("sp", Segment::Sp),
        ("local", Segment::Local),
        ("argument", Segment::Argument),
        ("this", Segment::This),
        ("that", Segment::That),
        ("temp", Segment::Temp),
        ("static", Segment::Static),
        ("pointer", Segment::Pointer),
        ("constant", Segment::Constant),
    ];
    for (name, seg) in names {
        assert_eq!(segment_from_name(name), Some(seg));
    }
    assert_eq!(segment_from_name("Local"), None);
    assert_eq!(segment_from_name(""), None);
}
