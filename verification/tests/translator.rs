use hackvm::instr::CommandType;
use hackvm::translator::{TranslateError, Translator};

fn lines(text: &[&str]) -> Vec<String> {
    text.iter().map(|x| x.to_string()).collect()
}

#[test]
fn add_pops_two_and_stores_the_sum() {
    let mut t = Translator::init();
    assert_eq!(
        t.translate_arithmetic(&"add".to_string()),
        Ok(lines(&["@SP", "AM=M-1", "D=M", "@SP", "A=M-1", "M=D+M"]))
    );
}

#[test]
fn binary_operations_differ_in_the_last_line_only() {
    let mut t = Translator::init();
    let sub = t.translate_arithmetic(&"sub".to_string()).unwrap();
    let and = t.translate_arithmetic(&"and".to_string()).unwrap();
    let or = t.translate_arithmetic(&"or".to_string()).unwrap();
    assert_eq!(sub, lines(&["@SP", "AM=M-1", "D=M", "@SP", "A=M-1", "M=M-D"]));
    assert_eq!(and[..5], sub[..5]);
    assert_eq!(or[..5], sub[..5]);
    assert_eq!(and[5], "M=D&M");
    assert_eq!(or[5], "M=D|M");
}

#[test]
fn unary_operations_work_in_place() {
    let mut t = Translator::init();
    assert_eq!(
        t.translate_arithmetic(&"neg".to_string()),
        Ok(lines(&["@SP", "A=M-1", "M=-M"]))
    );
    assert_eq!(
        t.translate_arithmetic(&"not".to_string()),
        Ok(lines(&["@SP", "A=M-1", "M=!M"]))
    );
}

#[test]
fn eq_uses_numbered_labels() {
    let mut t = Translator::init();
    assert_eq!(
        t.translate_arithmetic(&"eq".to_string()),
        Ok(lines(&[
            "@SP", "A=M", "A=A-1", "A=A-1", "D=M", "A=A+1", "D=D-M", "@SP", "M=M-1", "M=M-1",
            "@EQ_0", "D;JEQ", "@SP", "A=M", "M=0", "@END_0", "0;JMP", "", "(EQ_0)", "@SP", "A=M",
            "M=-1", "", "(END_0)", "@SP", "M=M+1",
        ]))
    );
}

#[test]
fn gt_decides_by_sign_before_it_subtracts() {
    let mut t = Translator::starting_at(7);
    assert_eq!(
        t.translate_arithmetic(&"gt".to_string()),
        Ok(lines(&[
            "@SP", "AM=M-1", "D=M", "@GT_NEG_7", "D;JLT", "@SP", "A=M-1", "D=M", "@GT_SAME_7",
            "D;JGE", "@GT_TEST_7", "0;JMP", "(GT_NEG_7)", "@SP", "A=M-1", "D=M", "@GT_SAME_7",
            "D;JLT", "D=1", "@GT_TEST_7", "0;JMP", "(GT_SAME_7)", "@SP", "A=M", "D=M", "A=A-1",
            "D=M-D", "(GT_TEST_7)", "@GT_7", "D;JGT", "@SP", "A=M-1", "M=0", "@END_7", "0;JMP",
            "(GT_7)", "@SP", "A=M-1", "M=-1", "(END_7)",
        ]))
    );
}

#[test]
fn lt_differs_from_gt_in_names_and_jump() {
    let mut a = Translator::init();
    let mut b = Translator::init();
    let gt = a.translate_arithmetic(&"gt".to_string()).unwrap();
    let lt = b.translate_arithmetic(&"lt".to_string()).unwrap();
    assert_eq!(gt.len(), lt.len());
    for i in 0..gt.len() {
        assert_eq!(gt[i].replace("GT", "LT"), lt[i]);
    }
    assert_eq!(lt[29], "D;JLT");
}

#[test]
fn each_comparison_takes_a_new_label_number() {
    let mut t = Translator::init();
    let first = t.translate_arithmetic(&"eq".to_string()).unwrap();
    let second = t.translate_arithmetic(&"lt".to_string()).unwrap();
    let between = t.translate_arithmetic(&"add".to_string()).unwrap();
    let third = t.translate_arithmetic(&"gt".to_string()).unwrap();
    assert!(first.contains(&"(EQ_0)".to_string()));
    assert!(second.contains(&"(LT_1)".to_string()));
    assert!(third.contains(&"(GT_2)".to_string()));
    assert!(third.contains(&"(END_2)".to_string()));
    assert_eq!(between.len(), 6);
}

#[test]
fn unknown_operation_is_rejected() {
    let mut t = Translator::init();
    assert_eq!(
        t.translate_arithmetic(&"mul".to_string()),
        Err(TranslateError::UnknownOperation)
    );
    assert_eq!(
        t.translate_arithmetic(&"".to_string()),
        Err(TranslateError::UnknownOperation)
    );
    // The rejected commands took no label number.
    let eq = t.translate_arithmetic(&"eq".to_string()).unwrap();
    assert_eq!(eq[10], "@EQ_0");
}

#[test]
fn label_numbers_run_out() {
    let mut t = Translator::starting_at(u32::MAX - 1);
    let last = t.translate_call(&"f".to_string(), 0).unwrap();
    assert_eq!(last[0], "@FUNC_f_0_4294967294");
    assert_eq!(
        t.translate_arithmetic(&"eq".to_string()),
        Err(TranslateError::LabelsExhausted)
    );
    assert_eq!(
        t.translate_call(&"f".to_string(), 0),
        Err(TranslateError::LabelsExhausted)
    );
    assert_eq!(t.sys_init(), Err(TranslateError::LabelsExhausted));
    // Operations without labels are still translated.
    assert!(t.translate_arithmetic(&"add".to_string()).is_ok());
}

#[test]
fn push_constant_pushes_the_index_itself() {
    let t = Translator::init();
    assert_eq!(
        t.translate_push_pop_code(&CommandType::PUSH, &"constant".to_string(), &7),
        Ok(lines(&["@7", "D=A", "@SP", "A=M", "M=D", "@SP", "M=M+1"]))
    );
}

#[test]
fn push_through_a_base_pointer() {
    let t = Translator::init();
    for (seg, base) in [("local", "LCL"), ("argument", "ARG"), ("this", "THIS"), ("that", "THAT")]
    {
        let at_base = format!("@{}", base);
        assert_eq!(
            t.translate_push_pop_code(&CommandType::PUSH, &seg.to_string(), &3),
            Ok(lines(&[
                "@3", "D=A", &at_base, "A=M", "D=D+A", "A=D", "D=M", "@SP", "A=M", "M=D", "@SP",
                "M=M+1",
            ]))
        );
    }
}

#[test]
fn push_pointer_and_temp_do_not_dereference() {
    let t = Translator::init();
    assert_eq!(
        t.translate_push_pop_code(&CommandType::PUSH, &"pointer".to_string(), &1),
        Ok(lines(&[
            "@1", "D=A", "@3", "D=D+A", "A=D", "D=M", "@SP", "A=M", "M=D", "@SP", "M=M+1",
        ]))
    );
    assert_eq!(
        t.translate_push_pop_code(&CommandType::PUSH, &"temp".to_string(), &6),
        Ok(lines(&[
            "@6", "D=A", "@5", "D=D+A", "A=D", "D=M", "@SP", "A=M", "M=D", "@SP", "M=M+1",
        ]))
    );
}

#[test]
fn pop_through_a_base_pointer() {
    let t = Translator::init();
    assert_eq!(
        t.translate_push_pop_code(&CommandType::POP, &"local".to_string(), &2),
        Ok(lines(&[
            "@2", "D=A", "@LCL", "A=M", "D=D+A", "@LCL", "M=D", "@SP", "M=M-1", "A=M", "D=M",
            "@LCL", "A=M", "M=D", "@2", "D=A", "@LCL", "A=M", "D=A-D", "@LCL", "M=D",
        ]))
    );
}

#[test]
fn pop_pointer_and_temp_use_a_fixed_address() {
    let t = Translator::init();
    assert_eq!(
        t.translate_push_pop_code(&CommandType::POP, &"temp".to_string(), &0),
        Ok(lines(&[
            "@0", "D=A", "@5", "D=D+A", "@R13", "M=D", "@SP", "M=M-1", "A=M", "D=M", "@R13",
            "A=M", "M=D",
        ]))
    );
    let pointer = t
        .translate_push_pop_code(&CommandType::POP, &"pointer".to_string(), &1)
        .unwrap();
    assert_eq!(pointer[2], "@3");
    assert!(!pointer.contains(&"@THIS".to_string()));
}

#[test]
fn static_is_scoped_by_the_current_unit() {
    let mut t = Translator::init();
    assert_eq!(
        t.translate_push_pop_code(&CommandType::PUSH, &"static".to_string(), &3),
        Ok(lines(&["@STATIC_3_none", "D=M", "@SP", "A=M", "M=D", "@SP", "M=M+1"]))
    );
    t.translate_function(&"Foo.main".to_string(), 0);
    assert_eq!(
        t.translate_push_pop_code(&CommandType::POP, &"static".to_string(), &3),
        Ok(lines(&["@SP", "AM=M-1", "D=M", "@STATIC_3_Foo", "M=D"]))
    );
    t.translate_function(&"Bar".to_string(), 2);
    let bar = t
        .translate_push_pop_code(&CommandType::PUSH, &"static".to_string(), &3)
        .unwrap();
    assert_eq!(bar[0], "@STATIC_3_Bar");
}

#[test]
fn pop_constant_is_rejected() {
    let t = Translator::init();
    assert_eq!(
        t.translate_push_pop_code(&CommandType::POP, &"constant".to_string(), &0),
        Err(TranslateError::PopConstant)
    );
}

#[test]
fn unknown_segment_is_rejected() {
    let t = Translator::init();
    assert_eq!(
        t.translate_push_pop_code(&CommandType::PUSH, &"heap".to_string(), &0),
        Err(TranslateError::UnknownSegment)
    );
    assert_eq!(
        t.translate_push_pop_code(&CommandType::POP, &"Local".to_string(), &0),
        Err(TranslateError::UnknownSegment)
    );
}

#[test]
fn other_commands_are_no_memory_access() {
    let t = Translator::init();
    for kind in [
        CommandType::ARITHMETIC,
        CommandType::LABEL,
        CommandType::GOTO,
        CommandType::IF,
        CommandType::FUNCTION,
        CommandType::RETURN,
        CommandType::CALL,
    ] {
        assert_eq!(
            t.translate_push_pop_code(&kind, &"local".to_string(), &0),
            Err(TranslateError::NotMemoryAccess)
        );
    }
}

#[test]
fn negative_index_is_written_with_its_sign() {
    let t = Translator::init();
    let code = t
        .translate_push_pop_code(&CommandType::PUSH, &"constant".to_string(), &-12)
        .unwrap();
    assert_eq!(code[0], "@-12");
    let least = t
        .translate_push_pop_code(&CommandType::PUSH, &"constant".to_string(), &i32::MIN)
        .unwrap();
    assert_eq!(least[0], "@-2147483648");
}

#[test]
fn label_goto_and_if() {
    let t = Translator::init();
    assert_eq!(t.translate_label(&"LOOP".to_string()), lines(&["(LOOP)"]));
    assert_eq!(t.translate_goto(&"LOOP".to_string()), lines(&["@LOOP", "0;JMP"]));
    assert_eq!(
        t.translate_if(&"Main.loop$1".to_string()),
        lines(&["@SP", "M=M-1", "A=M", "D=M", "@Main.loop$1", "D;JNE"])
    );
}

#[test]
fn function_declares_its_entry() {
    let mut t = Translator::init();
    assert_eq!(
        t.translate_function(&"Sys.init".to_string(), 3),
        lines(&["// Defining function Sys.init", "(Sys.init)"])
    );
}

#[test]
fn call_saves_the_frame_in_order() {
    let mut t = Translator::init();
    let code = t.translate_call(&"Math.max".to_string(), 2).unwrap();
    assert_eq!(
        code,
        lines(&[
            "@FUNC_Math.max_2_0", "D=A", "@SP", "A=M", "M=D", "@SP", "M=M+1", "@LCL", "D=M",
            "@SP", "A=M", "M=D", "@SP", "M=M+1", "@ARG", "D=M", "@SP", "A=M", "M=D", "@SP",
            "M=M+1", "@THIS", "D=M", "@SP", "A=M", "M=D", "@SP", "M=M+1", "@THAT", "D=M", "@SP",
            "A=M", "M=D", "@SP", "M=M+1", "D=M", "@2", "D=D-A", "@5", "D=D-A", "@ARG", "M=D",
            "@SP", "D=M", "@LCL", "M=D", "@Math.max", "0;JMP", "(FUNC_Math.max_2_0)",
        ])
    );
    let next = t.translate_call(&"Math.max".to_string(), 2).unwrap();
    assert_eq!(next[0], "@FUNC_Math.max_2_1");
    assert_eq!(next[48], "(FUNC_Math.max_2_1)");
}

#[test]
fn return_restores_in_reverse_order() {
    let t = Translator::init();
    assert_eq!(
        t.translate_return(),
        lines(&[
            "@LCL", "D=M", "@STACK_FRAME", "M=D", "@5", "D=D-A", "A=D", "D=M", "@RETURN", "M=D",
            "@SP", "M=M-1", "A=M", "D=M", "@ARG", "A=M", "M=D", "@ARG", "D=M+1", "@SP", "M=D",
            "@STACK_FRAME", "D=M", "@1", "D=D-A", "A=D", "D=M", "@THAT", "M=D", "@STACK_FRAME",
            "D=M", "@2", "D=D-A", "A=D", "D=M", "@THIS", "M=D", "@STACK_FRAME", "D=M", "@3",
            "D=D-A", "A=D", "D=M", "@ARG", "M=D", "@STACK_FRAME", "D=M", "@4", "D=D-A", "A=D",
            "D=M", "@LCL", "M=D", "@RETURN", "A=M", "0;JMP",
        ])
    );
}

#[test]
fn pop_variable_stack_stores_then_loads() {
    let t = Translator::init();
    assert_eq!(
        t.pop_variable_stack("STACK_FRAME", "THAT", 2),
        lines(&["@THAT", "M=D", "@STACK_FRAME", "D=M", "@2", "D=D-A", "A=D", "D=M"])
    );
}

#[test]
fn bootstrap_sets_the_stack_and_calls_the_entry() {
    let mut t = Translator::init();
    let code = t.sys_init().unwrap();
    assert_eq!(
        code[..7],
        lines(&[
            "// Boilerplate bootstrap for Sys.init. Call Sys.init, initalize stack point to 256",
            "@256",
            "D=A",
            "@SP",
            "M=D",
            "",
            "// Calling Sys.init 0",
        ])[..]
    );
    let mut fresh = Translator::init();
    assert_eq!(code[7..], fresh.translate_call(&"Sys.init".to_string(), 0).unwrap()[..]);
    // The bootstrap took a label number and made Sys.init the current procedure.
    let call = t.translate_call(&"f".to_string(), 1).unwrap();
    assert_eq!(call[0], "@FUNC_f_1_1");
    let stat = t
        .translate_push_pop_code(&CommandType::PUSH, &"static".to_string(), &0)
        .unwrap();
    assert_eq!(stat[0], "@STATIC_0_Sys.init");
}

#[test]
fn same_commands_give_the_same_code() {
    let mut a = Translator::init();
    let mut b = Translator::init();
    for t in [&mut a, &mut b] {
        t.translate_function(&"Main.main".to_string(), 0);
    }
    let run = |t: &mut Translator| {
        let mut out: Vec<String> = Vec::new();
        out.extend(t.translate_push_pop_code(&CommandType::PUSH, &"static".to_string(), &1).unwrap());
        out.extend(t.translate_arithmetic(&"lt".to_string()).unwrap());
        out.extend(t.translate_call(&"Main.f".to_string(), 1).unwrap());
        out.extend(t.translate_return());
        out
    };
    assert_eq!(run(&mut a), run(&mut b));
}

fn translate_source(source: &str) -> Result<Vec<String>, TranslateError> {
    let mut parser = hackvm::parser::Parser::new(&source.to_string());
    let mut t = Translator::init();
    let mut out: Vec<String> = Vec::new();
    while parser.has_more_commands() {
        out.extend(t.translate_command(&parser)?);
        parser.advance();
    }
    Ok(out)
}

#[test]
fn commands_are_translated_behind_their_comment() {
    let code = translate_source("push constant 7 // seven\n  goto   END\nlabel END").unwrap();
    assert_eq!(
        code,
        lines(&[
            "// push constant 7", "@7", "D=A", "@SP", "A=M", "M=D", "@SP", "M=M+1", "// goto END",
            "@END", "0;JMP", "// label END", "(END)",
        ])
    );
}

#[test]
fn every_kind_of_command_is_translated_by_its_part() {
    let source = "function Main.f 2\npush static 1\npop that 2\nlt\nif-goto A\ncall Main.g 3\nreturn";
    let code = translate_source(source).unwrap();
    let mut t = Translator::init();
    let mut expected: Vec<String> = Vec::new();
    expected.push("// function Main.f 2".to_string());
    expected.extend(t.translate_function(&"Main.f".to_string(), 2));
    expected.push("// push static 1".to_string());
    expected.extend(t.translate_push_pop_code(&CommandType::PUSH, &"static".to_string(), &1).unwrap());
    expected.push("// pop that 2".to_string());
    expected.extend(t.translate_push_pop_code(&CommandType::POP, &"that".to_string(), &2).unwrap());
    expected.push("// lt".to_string());
    expected.extend(t.translate_arithmetic(&"lt".to_string()).unwrap());
    expected.push("// if-goto A".to_string());
    expected.extend(t.translate_if(&"A".to_string()));
    expected.push("// call Main.g 3".to_string());
    expected.extend(t.translate_call(&"Main.g".to_string(), 3).unwrap());
    expected.push("// return".to_string());
    expected.extend(t.translate_return());
    assert_eq!(code, expected);
    assert!(code.contains(&"@STATIC_1_Main".to_string()));
    assert!(code.contains(&"(LT_0)".to_string()));
    assert!(code.contains(&"(FUNC_Main.g_3_1)".to_string()));
}

#[test]
fn commands_that_cannot_be_translated() {
    assert_eq!(translate_source("jump L"), Err(TranslateError::UnknownCommand));
    assert_eq!(translate_source("push local"), Err(TranslateError::MissingOperand));
    assert_eq!(translate_source("push"), Err(TranslateError::MissingOperand));
    assert_eq!(translate_source("pop local x"), Err(TranslateError::MissingOperand));
    assert_eq!(translate_source("goto"), Err(TranslateError::MissingOperand));
    assert_eq!(translate_source("label"), Err(TranslateError::MissingOperand));
    assert_eq!(translate_source("if-goto"), Err(TranslateError::MissingOperand));
    assert_eq!(translate_source("call f"), Err(TranslateError::MissingOperand));
    assert_eq!(translate_source("function"), Err(TranslateError::MissingOperand));
    assert_eq!(translate_source("call f -1"), Err(TranslateError::NegativeCount));
    assert_eq!(translate_source("function f -2"), Err(TranslateError::NegativeCount));
    assert_eq!(translate_source("push heap 1"), Err(TranslateError::UnknownSegment));
    assert_eq!(translate_source("pop constant 1"), Err(TranslateError::PopConstant));
    assert_eq!(translate_source("add\npop constant 1"), Err(TranslateError::PopConstant));
}

#[test]
fn no_command_to_translate() {
    let parser = hackvm::parser::Parser::new(&"// nothing".to_string());
    let mut t = Translator::init();
    assert_eq!(t.translate_command(&parser), Err(TranslateError::NoCommand));
}

#[test]
fn a_rejected_command_leaves_the_state() {
    let mut t = Translator::init();
    t.translate_function(&"Unit.f".to_string(), 0);
    t.translate_arithmetic(&"eq".to_string()).unwrap();
    let parser = hackvm::parser::Parser::new(&"call f -1".to_string());
    assert_eq!(t.translate_command(&parser), Err(TranslateError::NegativeCount));
    let call = t.translate_call(&"f".to_string(), 0).unwrap();
    assert_eq!(call[0], "@FUNC_f_0_1");
    let stat = t
        .translate_push_pop_code(&CommandType::PUSH, &"static".to_string(), &0)
        .unwrap();
    assert_eq!(stat[0], "@STATIC_0_Unit");
}
