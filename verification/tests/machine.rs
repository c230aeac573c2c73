use hackvm::assembler::Assembler;
use hackvm::instr::CommandType;
use hackvm::translator::Translator;

/// Runs binary words on a machine with the given memory until the program
/// counter leaves the program; the result is the number of steps taken.
fn run(words: &[String], ram: &mut Vec<u16>) -> usize {
    let mut a: u16 = 0;
    let mut d: u16 = 0;
    let mut pc: usize = 0;
    let mut steps: usize = 0;
    while pc < words.len() {
        assert!(steps < 1_000_000, "the program does not end");
        steps += 1;
        let bits: Vec<bool> = words[pc].chars().map(|c| c == '1').collect();
        assert_eq!(bits.len(), 16);
        if !bits[0] {
            a = bits.iter().fold(0u16, |v, b| (v << 1) | (*b as u16));
            pc += 1;
            continue;
        }
        assert!(bits[1] && bits[2]);
        let m = ram[a as usize];
        let mut x = d;
        let mut y = if bits[3] { m } else { a };
        if bits[4] {
            x = 0;
        }
        if bits[5] {
            x = !x;
        }
        if bits[6] {
            y = 0;
        }
        if bits[7] {
            y = !y;
        }
        let mut out = if bits[8] { x.wrapping_add(y) } else { x & y };
        if bits[9] {
            out = !out;
        }
        let target = a;
        if bits[12] {
            ram[a as usize] = out;
        }
        if bits[10] {
            a = out;
        }
        if bits[11] {
            d = out;
        }
        let value = out as i16;
        let jump = (bits[13] && value < 0) || (bits[14] && value == 0) || (bits[15] && value > 0);
        pc = if jump { target as usize } else { pc + 1 };
    }
    steps
}

fn assemble(lines: &[String]) -> Vec<String> {
    let text = lines.join("\n");
    Assembler::new(&text).translate().unwrap()
}

fn memory() -> Vec<u16> {
    vec![0u16; 65536]
}

fn push(t: &Translator, seg: &str, index: i32) -> Vec<String> {
    t.translate_push_pop_code(&CommandType::PUSH, &seg.to_string(), &index).unwrap()
}

fn pop(t: &Translator, seg: &str, index: i32) -> Vec<String> {
    t.translate_push_pop_code(&CommandType::POP, &seg.to_string(), &index).unwrap()
}

#[test]
fn seven_plus_eight_lands_in_local_zero() {
    let mut t = Translator::init();
    let mut code: Vec<String> = Vec::new();
    code.extend(push(&t, "constant", 7));
    code.extend(push(&t, "constant", 8));
    code.extend(t.translate_arithmetic(&"add".to_string()).unwrap());
    code.extend(pop(&t, "local", 0));
    let words = assemble(&code);
    let mut ram = memory();
    ram[0] = 256;
    ram[1] = 300;
    run(&words, &mut ram);
    assert_eq!(ram[300], 15);
    assert_eq!(ram[0], 256);
    assert_eq!(ram[1], 300);
}

fn compare(op: &str, x: i16, y: i16) -> u16 {
    let mut t = Translator::starting_at(3);
    let words = assemble(&t.translate_arithmetic(&op.to_string()).unwrap());
    let mut ram = memory();
    ram[0] = 258;
    ram[256] = x as u16;
    ram[257] = y as u16;
    ram[255] = 0x1234;
    run(&words, &mut ram);
    assert_eq!(ram[0], 257, "the stack pointer after {} {} {}", x, op, y);
    assert_eq!(ram[255], 0x1234);
    ram[256]
}

#[test]
fn comparisons_are_right_at_the_boundaries() {
    let values: [i16; 11] = [i16::MIN, i16::MIN + 1, -2, -1, 0, 1, 2, 255, 256, i16::MAX - 1, i16::MAX];
    for x in values {
        for y in values {
            assert_eq!(compare("eq", x, y), if x == y { 0xFFFF } else { 0 }, "{} eq {}", x, y);
            assert_eq!(compare("gt", x, y), if x > y { 0xFFFF } else { 0 }, "{} gt {}", x, y);
            assert_eq!(compare("lt", x, y), if x < y { 0xFFFF } else { 0 }, "{} lt {}", x, y);
        }
    }
}

#[test]
fn comparison_of_the_extremes() {
    assert_eq!(compare("lt", i16::MIN, i16::MAX), 0xFFFF);
    assert_eq!(compare("gt", i16::MIN, i16::MAX), 0);
    assert_eq!(compare("gt", i16::MAX, i16::MIN), 0xFFFF);
    assert_eq!(compare("lt", i16::MAX, i16::MIN), 0);
    assert_eq!(compare("eq", i16::MIN, i16::MIN), 0xFFFF);
    assert_eq!(compare("eq", i16::MAX, i16::MIN), 0);
}

#[test]
fn arithmetic_on_the_stack() {
    let cases: [(&str, u16, u16, u16); 6] = [
        ("add", 7, 8, 15),
        ("add", 0xFFFF, 2, 1),
        ("sub", 7, 8, 0xFFFF),
        ("sub", 20, 8, 12),
        ("and", 0b1100, 0b1010, 0b1000),
        ("or", 0b1100, 0b1010, 0b1110),
    ];
    for (op, x, y, expected) in cases {
        let mut t = Translator::init();
        let words = assemble(&t.translate_arithmetic(&op.to_string()).unwrap());
        let mut ram = memory();
        ram[0] = 258;
        ram[256] = x;
        ram[257] = y;
        run(&words, &mut ram);
        assert_eq!(ram[256], expected, "{} {} {}", x, op, y);
        assert_eq!(ram[0], 257);
    }
    for (op, x, expected) in [("neg", 5u16, 0xFFFBu16), ("not", 5, 0xFFFA), ("neg", 0, 0)] {
        let mut t = Translator::init();
        let words = assemble(&t.translate_arithmetic(&op.to_string()).unwrap());
        let mut ram = memory();
        ram[0] = 257;
        ram[256] = x;
        run(&words, &mut ram);
        assert_eq!(ram[256], expected, "{} {}", op, x);
        assert_eq!(ram[0], 257);
    }
}

#[test]
fn segments_reach_their_cells() {
    let t = Translator::init();
    // (segment, index, address of the cell)
    let cells: [(&str, i32, usize); 8] = [
        ("local", 2, 302),
        ("argument", 1, 401),
        ("this", 0, 3000),
        ("that", 5, 4005),
        ("pointer", 0, 3),
        ("pointer", 1, 4),
        ("temp", 0, 5),
        ("temp", 7, 12),
    ];
    for (seg, index, address) in cells {
        let fresh = || {
            let mut ram = memory();
            ram[0] = 256;
            ram[1] = 300;
            ram[2] = 400;
            ram[3] = 3000;
            ram[4] = 4000;
            ram
        };
        // A pop stores the top of the stack in the cell.
        let mut ram = fresh();
        ram[256] = 777;
        ram[0] = 257;
        let before = ram.clone();
        run(&assemble(&pop(&t, seg, index)), &mut ram);
        assert_eq!(ram[address], 777, "pop {} {}", seg, index);
        assert_eq!(ram[0], 256);
        for a in 1..16 {
            if a != address && a != 13 {
                assert_eq!(ram[a], before[a], "pop {} {} changed register {}", seg, index, a);
            }
        }
        // A push reads the cell.
        let mut ram = fresh();
        ram[address] = 4321;
        let before = ram.clone();
        run(&assemble(&push(&t, seg, index)), &mut ram);
        assert_eq!(ram[256], 4321, "push {} {}", seg, index);
        assert_eq!(ram[0], 257);
        for a in 1..16 {
            assert_eq!(ram[a], before[a], "push {} {} changed register {}", seg, index, a);
        }
    }
}

#[test]
fn static_variables_are_apart_by_unit() {
    let mut t = Translator::init();
    let mut code: Vec<String> = Vec::new();
    code.extend(t.translate_function(&"Foo.set".to_string(), 0));
    code.extend(push(&t, "constant", 11));
    code.extend(pop(&t, "static", 3));
    code.extend(t.translate_function(&"Bar.set".to_string(), 0));
    code.extend(push(&t, "constant", 22));
    code.extend(pop(&t, "static", 3));
    code.extend(t.translate_function(&"Foo.get".to_string(), 0));
    code.extend(push(&t, "static", 3));
    let words = assemble(&code);
    let mut ram = memory();
    ram[0] = 256;
    run(&words, &mut ram);
    assert_eq!(ram[16], 11);
    assert_eq!(ram[17], 22);
    assert_eq!(ram[256], 11);
    assert_eq!(ram[0], 257);
}

#[test]
fn if_goto_jumps_on_any_value_but_zero() {
    for (value, expected) in [(0u16, 1u16), (1, 2), (0xFFFF, 2), (0x8000, 2)] {
        let mut t = Translator::init();
        let mut code: Vec<String> = Vec::new();
        code.extend(t.translate_if(&"TAKEN".to_string()));
        code.extend(push(&t, "constant", 1));
        code.extend(t.translate_goto(&"END".to_string()));
        code.extend(t.translate_label(&"TAKEN".to_string()));
        code.extend(push(&t, "constant", 2));
        code.extend(t.translate_label(&"END".to_string()));
        let words = assemble(&code);
        let mut ram = memory();
        ram[0] = 257;
        ram[256] = value;
        run(&words, &mut ram);
        assert_eq!(ram[256], expected, "if-goto on {}", value);
        assert_eq!(ram[0], 257);
    }
}

#[test]
fn call_and_return_leave_the_caller_as_it_was() {
    for n in [0u32, 1, 2, 5] {
        let mut t = Translator::init();
        let mut code: Vec<String> = Vec::new();
        for i in 0..n {
            code.extend(push(&t, "constant", 100 + i as i32));
        }
        code.extend(t.translate_call(&"Lib.answer".to_string(), n).unwrap());
        code.extend(t.translate_goto(&"END".to_string()));
        code.extend(t.translate_function(&"Lib.answer".to_string(), 0));
        code.extend(push(&t, "constant", 5));
        code.extend(pop(&t, "pointer", 0));
        code.extend(push(&t, "constant", 6));
        code.extend(pop(&t, "pointer", 1));
        code.extend(push(&t, "constant", 42));
        code.extend(t.translate_return());
        code.extend(t.translate_label(&"END".to_string()));
        let words = assemble(&code);
        let mut ram = memory();
        ram[0] = 300;
        ram[1] = 1111;
        ram[2] = 2222;
        ram[3] = 3333;
        ram[4] = 4444;
        run(&words, &mut ram);
        let before = 300 + n as u16;
        assert_eq!(ram[0], before - n as u16 + 1, "the stack pointer with {} arguments", n);
        assert_eq!(ram[ram[0] as usize - 1], 42, "the value returned with {} arguments", n);
        assert_eq!(ram[1], 1111);
        assert_eq!(ram[2], 2222);
        assert_eq!(ram[3], 3333);
        assert_eq!(ram[4], 4444);
    }
}

#[test]
fn nested_calls_return_in_turn() {
    let mut t = Translator::init();
    let mut code: Vec<String> = Vec::new();
    code.extend(t.sys_init().unwrap());
    code.extend(t.translate_goto(&"END".to_string()));
    // Sys.init calls Main.double(21) and leaves the result on its stack.
    code.extend(t.translate_function(&"Sys.init".to_string(), 0));
    code.extend(push(&t, "constant", 21));
    code.extend(t.translate_call(&"Main.double".to_string(), 1).unwrap());
    code.extend(t.translate_return());
    // Main.double(x) is Main.sum(x, x).
    code.extend(t.translate_function(&"Main.double".to_string(), 0));
    code.extend(push(&t, "argument", 0));
    code.extend(push(&t, "argument", 0));
    code.extend(t.translate_call(&"Main.sum".to_string(), 2).unwrap());
    code.extend(t.translate_return());
    code.extend(t.translate_function(&"Main.sum".to_string(), 0));
    code.extend(push(&t, "argument", 0));
    code.extend(push(&t, "argument", 1));
    code.extend(t.translate_arithmetic(&"add".to_string()).unwrap());
    code.extend(t.translate_return());
    code.extend(t.translate_label(&"END".to_string()));
    let words = assemble(&code);
    let mut ram = memory();
    ram[1] = 11;
    ram[2] = 22;
    ram[3] = 33;
    ram[4] = 44;
    run(&words, &mut ram);
    assert_eq!(ram[0], 257);
    assert_eq!(ram[256], 42);
    assert_eq!(ram[1], 11);
    assert_eq!(ram[2], 22);
    assert_eq!(ram[3], 33);
    assert_eq!(ram[4], 44);
}

#[test]
fn a_negative_index_is_not_assembled() {
    let t = Translator::init();
    let text = push(&t, "constant", -1).join("\n");
    let result = Assembler::new(&text).translate();
    assert_eq!(
        result,
        Err(hackvm::assembler::AsmError {
            kind: hackvm::assembler::AsmErrorKind::InvalidAddress,
            line: 0
        })
    );
}

#[test]
fn the_translation_of_every_command_is_assembled() {
    let mut t = Translator::init();
    let mut code: Vec<String> = Vec::new();
    code.extend(t.sys_init().unwrap());
    code.extend(t.translate_function(&"Main.main".to_string(), 0));
    for op in ["add", "sub", "neg", "eq", "gt", "lt", "and", "or", "not"] {
        code.extend(t.translate_arithmetic(&op.to_string()).unwrap());
    }
    for seg in ["constant", "local", "argument", "this", "that", "pointer", "temp", "static"] {
        code.extend(push(&t, seg, 1));
        if seg != "constant" {
            code.extend(pop(&t, seg, 1));
        }
    }
    code.extend(t.translate_label(&"L".to_string()));
    code.extend(t.translate_goto(&"L".to_string()));
    code.extend(t.translate_if(&"L".to_string()));
    code.extend(t.translate_call(&"Main.main".to_string(), 0).unwrap());
    code.extend(t.translate_return());
    let instructions = code
        .iter()
        .filter(|l| !l.is_empty() && !l.starts_with("//") && !l.starts_with('('))
        .count();
    let words = assemble(&code);
    assert_eq!(words.len(), instructions);
}
