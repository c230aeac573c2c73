use hackvm::instr::CommandType;
use hackvm::parser::Parser;

#[test]
fn commands_come_in_order() {
    let source = "// A program\r\npush constant 7\r\n\r\n   push   constant\t8 // the second\nadd\n  // done\npop local 0";
    let mut p = Parser::new(&source.to_string());
    let mut seen: Vec<String> = Vec::new();
    while p.has_more_commands() {
        seen.push(p.get_command().unwrap());
        p.advance();
    }
    assert_eq!(seen, vec!["push constant 7", "push constant 8", "add", "pop local 0"]);
    assert_eq!(p.get_command(), None);
    assert_eq!(p.get_command_type(), None);
    assert_eq!(p.get_arg_1(), None);
    assert_eq!(p.get_arg_2(), None);
    // Advancing past the end changes nothing.
    p.advance();
    assert!(!p.has_more_commands());
}

#[test]
fn empty_sources_hold_no_command() {
    for source in ["", "\n\n", "   \t  ", "// only a comment", "\r\n//x\r\n"] {
        let p = Parser::new(&source.to_string());
        assert!(!p.has_more_commands(), "{:?}", source);
    }
}

#[test]
fn every_kind_of_command_is_recognised() {
    let cases: [(&str, CommandType); 17] = [
        ("push local 1", CommandType::PUSH),
        ("pop local 1", CommandType::POP),
        ("add", CommandType::ARITHMETIC),
        ("sub", CommandType::ARITHMETIC),
        ("neg", CommandType::ARITHMETIC),
        ("eq", CommandType::ARITHMETIC),
        ("gt", CommandType::ARITHMETIC),
        ("lt", CommandType::ARITHMETIC),
        ("and", CommandType::ARITHMETIC),
        ("or", CommandType::ARITHMETIC),
        ("not", CommandType::ARITHMETIC),
        ("label L", CommandType::LABEL),
        ("goto L", CommandType::GOTO),
        ("if-goto L", CommandType::IF),
        ("function f 2", CommandType::FUNCTION),
        ("call f 2", CommandType::CALL),
        ("return", CommandType::RETURN),
    ];
    for (line, kind) in cases {
        let p = Parser::new(&line.to_string());
        assert_eq!(p.get_command_type(), Some(kind), "{}", line);
    }
}

#[test]
fn unknown_commands_have_no_kind() {
    for line in ["mul", "PUSH local 1", "if_goto L", "goto2 L"] {
        let p = Parser::new(&line.to_string());
        assert!(p.has_more_commands());
        assert_eq!(p.get_command_type(), None, "{}", line);
        assert_eq!(p.get_arg_1(), None, "{}", line);
    }
}

#[test]
fn first_argument() {
    let cases: [(&str, Option<&str>); 8] = [
        ("add", Some("add")),
        ("not", Some("not")),
        ("push constant 7", Some("constant")),
        ("label LOOP", Some("LOOP")),
        ("if-goto Main.loop$1", Some("Main.loop$1")),
        ("call Math.max 2", Some("Math.max")),
        ("return", None),
        ("push", None),
    ];
    for (line, expected) in cases {
        let p = Parser::new(&line.to_string());
        assert_eq!(p.get_arg_1(), expected.map(|s| s.to_string()), "{}", line);
    }
}

#[test]
fn second_argument() {
    let cases: [(&str, Option<i32>); 12] = [
        ("push constant 7", Some(7)),
        ("push constant 007", Some(7)),
        ("pop local 0", Some(0)),
        ("function f 12", Some(12)),
        ("call f +3", Some(3)),
        ("push constant -5", Some(-5)),
        ("push constant 2147483647", Some(i32::MAX)),
        ("push constant -2147483648", Some(i32::MIN)),
        ("push constant 2147483648", None),
        ("push constant 1x", None),
        ("push constant -", None),
        ("push constant", None),
    ];
    for (line, expected) in cases {
        let p = Parser::new(&line.to_string());
        assert_eq!(p.get_arg_2(), expected, "{}", line);
    }
}

#[test]
fn advance_moves_to_the_next_command() {
    let mut p = Parser::new(&"push constant 1\nneg\nreturn".to_string());
    assert_eq!(p.get_command_type(), Some(CommandType::PUSH));
    assert_eq!(p.get_arg_2(), Some(1));
    p.advance();
    assert_eq!(p.get_command_type(), Some(CommandType::ARITHMETIC));
    assert_eq!(p.get_arg_1(), Some("neg".to_string()));
    p.advance();
    assert_eq!(p.get_command_type(), Some(CommandType::RETURN));
    p.advance();
    assert!(!p.has_more_commands());
}
