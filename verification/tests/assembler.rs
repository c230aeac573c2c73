use hackvm::assembler::{Assembler, AsmError, AsmErrorKind};

#[test]
fn slides_test() {
    let code: &str = "      @i
    M=1    // i = 1 
    @sum 
    M=0    // sum = 0 
(LOOP)					 
    @i     
    D=M     // D = i                             
    @100                                
    D=D-A   // D = i - 100                            
    @END
    D;JGT   // If (i-100) > 0 goto END                            
    @i                        
    D=M     // D = i                             
    @sum                                
    M=D+M   // sum += i                            
    @i                            
    M=M+1   // i++                             
    @LOOP
    0;JMP   // Goto LOOP                            
 (END)
    @END 
    0;JMP   // Infinite loop
";

    let mut asmblr = Assembler::new(&code.to_string());

    let translate_result = asmblr.translate().unwrap();

    assert_eq!(
        translate_result.join("\n"),
        "0000000000010000
1110111111001000
0000000000010001
1110101010001000
0000000000010000
1111110000010000
0000000001100100
1110010011010000
0000000000010010
1110001100000001
0000000000010000
1111110000010000
0000000000010001
1111000010001000
0000000000010000
1111110111001000
0000000000000100
1110101010000111
0000000000010010
1110101010000111"
    );
}

#[test]
fn unterminated_label_is_rejected() {
    let mut a = Assembler::new(&"@1\n(LOOP\nD=A\n".to_string());
    assert_eq!(
        a.translate(),
        Err(AsmError { kind: AsmErrorKind::MalformedLabel, line: 1 })
    );
}

fn assemble(code: &str) -> Result<Vec<String>, AsmError> {
    Assembler::new(&code.to_string()).translate()
}

fn fault(kind: AsmErrorKind, line: usize) -> Result<Vec<String>, AsmError> {
    Err(AsmError { kind, line })
}

#[test]
fn store_d_in_the_addressed_cell() {
    let words = assemble("@2\nD=A\n@3\nD=D+A\n@0\nM=D").unwrap();
    assert_eq!(
        words,
        vec![
            "0000000000000010",
            "1110110000010000",
            "0000000000000011",
            "1110000010010000",
            "0000000000000000",
            "1110001100001000",
        ]
    );
    let computes: Vec<&String> = words.iter().filter(|w| w.starts_with('1')).collect();
    assert_eq!(computes.len(), 3);
    assert!(computes[2].starts_with("111"));
    // The computation is D, the destination is M, there is no jump.
    assert_eq!(&computes[2][3..10], "0001100");
    assert_eq!(&computes[2][10..13], "001");
    assert_eq!(&computes[2][13..16], "000");
}

#[test]
fn the_same_program_gives_the_same_words() {
    let code = "@i\nM=1\n(LOOP)\n@i\nMD=M+1\n@LOOP\nD;JLT\n@j\nM=D\n";
    let first = assemble(code).unwrap();
    let second = assemble(code).unwrap();
    assert_eq!(first, second);
    // A second run of the same assembler gives the same words too.
    let mut a = Assembler::new(&code.to_string());
    let once = a.translate().unwrap();
    let twice = a.translate().unwrap();
    assert_eq!(once, first);
    assert_eq!(twice, first);
}

#[test]
fn a_label_used_before_its_declaration() {
    let words = assemble("@END\n0;JMP\n@7\nD=A\n(END)\n@END\n0;JMP").unwrap();
    // END is bound to the address of the instruction that follows it: 4.
    assert_eq!(words[0], "0000000000000100");
    assert_eq!(words[4], "0000000000000100");
    assert_eq!(words.len(), 6);
}

#[test]
fn labels_in_a_row_share_an_address() {
    let words = assemble("(A)\n(B)\n@B\n@A\n(C)\n@C").unwrap();
    assert_eq!(
        words,
        vec!["0000000000000000", "0000000000000000", "0000000000000010"]
    );
}

#[test]
fn a_label_at_the_end_is_bound_behind_the_program() {
    let words = assemble("@LAST\n0;JMP\n(LAST)").unwrap();
    assert_eq!(words[0], "0000000000000010");
}

#[test]
fn the_first_binding_of_a_name_stays() {
    // A declaration of a name that is bound already binds nothing.
    let words = assemble("@X\n(X)\nD=A\n(X)\n@X\n(SP)\n@SP").unwrap();
    assert_eq!(words[0], "0000000000000001");
    assert_eq!(words[2], "0000000000000001");
    assert_eq!(words[3], "0000000000000000");
}

#[test]
fn variables_are_numbered_by_first_use() {
    let words = assemble("@b\n@a\n@b\n@c\n@a\n@b\n@R5\n@d").unwrap();
    let address = |w: &String| u16::from_str_radix(w, 2).unwrap();
    let addresses: Vec<u16> = words.iter().map(address).collect();
    assert_eq!(addresses, vec![16, 17, 16, 18, 17, 16, 5, 19]);
}

#[test]
fn a_label_is_no_variable() {
    let words = assemble("@x\n@later\n@y\n(later)\n@z").unwrap();
    let address = |w: &String| u16::from_str_radix(w, 2).unwrap();
    let addresses: Vec<u16> = words.iter().map(address).collect();
    assert_eq!(addresses, vec![16, 3, 17, 18]);
}

#[test]
fn the_predefined_symbols() {
    let names = [
        ("SP", 0), ("LCL", 1), ("ARG", 2), ("THIS", 3), ("THAT", 4), ("SCREEN", 16384),
        ("KBD", 24576), ("R0", 0), ("R1", 1), ("R2", 2), ("R3", 3), ("R4", 4), ("R5", 5),
        ("R6", 6), ("R7", 7), ("R8", 8), ("R9", 9), ("R10", 10), ("R11", 11), ("R12", 12),
        ("R13", 13), ("R14", 14), ("R15", 15),
    ];
    for (name, address) in names {
        let words = assemble(&format!("@{}", name)).unwrap();
        assert_eq!(words, vec![format!("{:016b}", address)], "{}", name);
    }
    // R16 is an ordinary variable.
    assert_eq!(assemble("@R16").unwrap(), vec!["0000000000010000"]);
}

#[test]
fn leading_bits_tell_the_instructions_apart() {
    let code = "@0\n@32767\n@x\nD=M\n0;JMP\nAMD=D|M;JLE\n(L)\n@L\nM=-1";
    let words = assemble(code).unwrap();
    let address = [true, true, true, false, false, false, true, false];
    assert_eq!(words.len(), address.len());
    for (w, is_address) in words.iter().zip(address) {
        assert_eq!(w.len(), 16);
        assert!(w.chars().all(|c| c == '0' || c == '1'));
        if is_address {
            assert!(w.starts_with('0'), "{}", w);
        } else {
            assert!(w.starts_with("111"), "{}", w);
        }
    }
}

#[test]
fn every_mnemonic_is_encoded() {
    let comps = [
        ("0", "0101010"), ("1", "0111111"), ("-1", "0111010"), ("D", "0001100"),
        ("A", "0110000"), ("!D", "0001101"), ("!A", "0110001"), ("-D", "0001111"),
        ("-A", "0110011"), ("D+1", "0011111"), ("A+1", "0110111"), ("D-1", "0001110"),
        ("A-1", "0110010"), ("D+A", "0000010"), ("D-A", "0010011"), ("A-D", "0000111"),
        ("D&A", "0000000"), ("D|A", "0010101"), ("M", "1110000"), ("!M", "1110001"),
        ("-M", "1110011"), ("M+1", "1110111"), ("M-1", "1110010"), ("D+M", "1000010"),
        ("D-M", "1010011"), ("M-D", "1000111"), ("D&M", "1000000"), ("D|M", "1010101"),
    ];
    let dests = [
        ("null", "000"), ("M", "001"), ("D", "010"), ("MD", "011"), ("A", "100"),
        ("AM", "101"), ("AD", "110"), ("AMD", "111"),
    ];
    let jumps = [
        ("null", "000"), ("JGT", "001"), ("JEQ", "010"), ("JGE", "011"), ("JLT", "100"),
        ("JNE", "101"), ("JLE", "110"), ("JMP", "111"),
    ];
    for (comp, comp_bits) in comps {
        for (dest, dest_bits) in dests {
            for (jump, jump_bits) in jumps {
                let expected = vec![format!("111{}{}{}", comp_bits, dest_bits, jump_bits)];
                let full = format!("{}={};{}", dest, comp, jump);
                assert_eq!(assemble(&full), Ok(expected.clone()), "{}", full);
                if dest == "null" {
                    let short = format!("{};{}", comp, jump);
                    assert_eq!(assemble(&short), Ok(expected.clone()), "{}", short);
                }
                if jump == "null" {
                    let short = format!("{}={}", dest, comp);
                    assert_eq!(assemble(&short), Ok(expected.clone()), "{}", short);
                }
                if dest == "null" && jump == "null" {
                    assert_eq!(assemble(comp), Ok(expected.clone()), "{}", comp);
                }
            }
        }
    }
}

#[test]
fn numbers_lose_their_high_bit() {
    assert_eq!(assemble("@32767").unwrap(), vec!["0111111111111111"]);
    assert_eq!(assemble("@32768").unwrap(), vec!["0000000000000000"]);
    assert_eq!(assemble("@65535").unwrap(), vec!["0111111111111111"]);
    assert_eq!(assemble("@40000").unwrap(), vec!["0001110001000000"]);
    assert_eq!(assemble("@000000000000000000017").unwrap(), vec!["0000000000010001"]);
}

#[test]
fn numbers_beyond_sixteen_bits_are_rejected() {
    assert_eq!(assemble("@65536"), fault(AsmErrorKind::AddressOverflow, 0));
    assert_eq!(
        assemble("D=A\n@99999999999999999999999999"),
        fault(AsmErrorKind::AddressOverflow, 1)
    );
}

#[test]
fn operands_that_are_no_numbers_are_rejected() {
    assert_eq!(assemble("@"), fault(AsmErrorKind::InvalidAddress, 0));
    assert_eq!(assemble("@12ab"), fault(AsmErrorKind::InvalidAddress, 0));
    assert_eq!(assemble("@1 2"), fault(AsmErrorKind::InvalidAddress, 0));
    assert_eq!(assemble("// c\n@1\n\n@2x // c"), fault(AsmErrorKind::InvalidAddress, 1));
    // A symbol begins with a letter.
    for operand in ["_x", "-1", "+5", " 5", "$a", ".a", "é", "(x)"] {
        assert_eq!(
            assemble(&format!("@{}", operand)),
            fault(AsmErrorKind::InvalidAddress, 0),
            "{:?}",
            operand
        );
    }
    let words = assemble("@x_1.y$z:0\n@X").unwrap();
    assert_eq!(words, vec!["0000000000010000", "0000000000010001"]);
}

#[test]
fn unknown_mnemonics_are_rejected() {
    assert_eq!(assemble("X=D"), fault(AsmErrorKind::UnknownDest, 0));
    assert_eq!(assemble("DM=D"), fault(AsmErrorKind::UnknownDest, 0));
    assert_eq!(assemble("=D"), fault(AsmErrorKind::UnknownDest, 0));
    assert_eq!(assemble("D=D+D"), fault(AsmErrorKind::UnknownComp, 0));
    assert_eq!(assemble("D=A+D"), fault(AsmErrorKind::UnknownComp, 0));
    assert_eq!(assemble("D="), fault(AsmErrorKind::UnknownComp, 0));
    assert_eq!(assemble("D=M=A"), fault(AsmErrorKind::UnknownComp, 0));
    assert_eq!(assemble("D = M"), fault(AsmErrorKind::UnknownDest, 0));
    assert_eq!(assemble("0;JUMP"), fault(AsmErrorKind::UnknownJump, 0));
    assert_eq!(assemble("D;"), fault(AsmErrorKind::UnknownJump, 0));
    assert_eq!(assemble("0;JMP;JMP"), fault(AsmErrorKind::UnknownJump, 0));
    // The destination is looked up before the computation, and that before the jump.
    assert_eq!(assemble("X=Y;Z"), fault(AsmErrorKind::UnknownDest, 0));
    assert_eq!(assemble("D=Y;Z"), fault(AsmErrorKind::UnknownComp, 0));
}

#[test]
fn malformed_labels_come_before_other_errors() {
    assert_eq!(assemble("(LOOP"), fault(AsmErrorKind::MalformedLabel, 0));
    assert_eq!(assemble("@1x\nD=A\n(LOOP\n"), fault(AsmErrorKind::MalformedLabel, 2));
    assert_eq!(assemble("(A\n(B"), fault(AsmErrorKind::MalformedLabel, 0));
    assert_eq!(assemble("@1x\nX=1"), fault(AsmErrorKind::InvalidAddress, 0));
}

#[test]
fn a_label_beyond_sixteen_bits_is_rejected() {
    let mut code = String::new();
    for _ in 0..65535 {
        code.push_str("D=A\n");
    }
    code.push_str("(LAST)\n@LAST\n");
    let words = assemble(&code).unwrap();
    assert_eq!(words.len(), 65536);
    assert_eq!(words[65535], "0111111111111111");
    code.push_str("(OVER)\n");
    assert_eq!(assemble(&code), fault(AsmErrorKind::AddressOverflow, 65537));
}

#[test]
fn comments_and_blanks_are_no_lines() {
    let a = Assembler::new(&String::new());
    assert_eq!(
        a.format_code(&"  // head\n\n @1 // one\r\n\t(L)  \n//\nD=A//x\n   \n0;JMP".to_string()),
        vec!["@1", "(L)", "D=A", "0;JMP"]
    );
    assert_eq!(a.format_code(&"".to_string()), Vec::<String>::new());
    assert_eq!(a.format_code(&"\n\n//\n".to_string()), Vec::<String>::new());
    // A single slash is no comment.
    assert_eq!(a.format_code(&"D/A".to_string()), vec!["D/A"]);
    assert_eq!(assemble(""), Ok(vec![]));
}

#[test]
fn the_name_of_a_label_ends_at_the_first_bracket() {
    let words = assemble("D=A\n(A)B)\n@A\n@A)B").unwrap();
    assert_eq!(words[1], "0000000000000001");
    assert_eq!(words[2], "0000000000010000");
}
