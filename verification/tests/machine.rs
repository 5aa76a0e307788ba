use std::collections::HashMap;
use vm_translator::translate::{translate_unit, LabelAllocator};

const SP: usize = 0;
const LCL: usize = 1;
const ARG: usize = 2;
const THIS: usize = 3;
const THAT: usize = 4;
const R13: usize = 13;

fn compute(comp: &str, a: i16, d: i16, m: i16) -> i16 {
    match comp {
        "0" => 0,
        "-1" => -1,
        "D" => d,
        "A" => a,
        "M" => m,
        "-M" => m.wrapping_neg(),
        "!M" => !m,
        "M+1" => m.wrapping_add(1),
        "M-1" => m.wrapping_sub(1),
        "A-1" => a.wrapping_sub(1),
        "D+M" => d.wrapping_add(m),
        "D+A" => d.wrapping_add(a),
        "M-D" => m.wrapping_sub(d),
        "D-A" => d.wrapping_sub(a),
        "D&M" => d & m,
        "D|M" => d | m,
        other => panic!("unknown computation {other}"),
    }
}

/// Assembles and runs a program on the target machine until it runs off
/// its end.
fn run(program: &str, ram: &mut Vec<i16>) {
    let mut symbols: HashMap<String, i16> = HashMap::new();
    for (name, at) in [("SP", 0), ("LCL", 1), ("ARG", 2), ("THIS", 3), ("THAT", 4)] {
        symbols.insert(name.to_string(), at);
    }
    for r in 0..16 {
        symbols.insert(format!("R{r}"), r);
    }
    let mut code: Vec<&str> = Vec::new();
    for line in program.split('\n') {
        if line.starts_with('(') {
            let name = &line[1..line.len() - 1];
            assert!(symbols.insert(name.to_string(), code.len() as i16).is_none(), "{name} twice");
        } else {
            code.push(line);
        }
    }
    let mut next_variable: i16 = 16;
    let (mut a, mut d): (i16, i16) = (0, 0);
    let mut pc: usize = 0;
    let mut steps = 0;
    while pc < code.len() {
        steps += 1;
        assert!(steps < 100_000);
        let line = code[pc];
        pc += 1;
        if let Some(target) = line.strip_prefix('@') {
            a = match target.parse::<i16>() {
                Ok(n) => n,
                Err(_) => *symbols.entry(target.to_string()).or_insert_with(|| {
                    next_variable += 1;
                    next_variable - 1
                }),
            };
        } else if let Some((dest, comp)) = line.split_once('=') {
            let at = a as u16 as usize;
            let value = compute(comp, a, d, ram[at]);
            if dest.contains('M') {
                ram[at] = value;
            }
            if dest.contains('A') {
                a = value;
            }
            if dest.contains('D') {
                d = value;
            }
        } else if let Some((comp, jump)) = line.split_once(';') {
            let value = compute(comp, a, d, ram[a as u16 as usize]);
            let taken = match jump {
                "JEQ" => value == 0,
                "JLT" => value < 0,
                "JGT" => value > 0,
                "JNE" => value != 0,
                "JMP" => true,
                other => panic!("unknown jump {other}"),
            };
            if taken {
                pc = a as u16 as usize;
            }
        } else {
            panic!("unknown line {line}");
        }
    }
}

fn fresh_ram() -> Vec<i16> {
    let mut ram = vec![0i16; 32768];
    for (i, cell) in ram.iter_mut().enumerate() {
        *cell = (i % 97) as i16 + 1000;
    }
    ram[SP] = 256;
    ram[LCL] = 300;
    ram[ARG] = 400;
    ram[THIS] = 3000;
    ram[THAT] = 3010;
    ram
}

fn translate(lines: &[&str]) -> String {
    let mut labels = LabelAllocator::new();
    translate_unit(&lines.to_vec(), "Test", &mut labels).unwrap().join("\n")
}

fn run_on_fresh(lines: &[&str]) -> Vec<i16> {
    let mut ram = fresh_ram();
    run(&translate(lines), &mut ram);
    ram
}

#[test]
fn comparisons_leave_all_ones_or_zero() {
    let cases = [
        ("eq", 5, 5, -1),
        ("lt", 5, 5, 0),
        ("gt", 5, 5, 0),
        ("eq", 5, 6, 0),
        ("lt", 5, 6, -1),
        ("gt", 5, 6, 0),
        ("lt", 6, 5, 0),
        ("gt", 6, 5, -1),
    ];
    for (op, x, y, expected) in cases {
        let a = format!("push constant {x}");
        let b = format!("push constant {y}");
        let ram = run_on_fresh(&[&a, &b, op]);
        assert_eq!(ram[SP], 257, "{op} {x} {y}");
        assert_eq!(ram[256], expected, "{op} {x} {y}");
    }
}

#[test]
fn arithmetic_computes_on_the_top_cells() {
    let cases = [("add", 12), ("sub", 2), ("and", 5), ("or", 7)];
    for (op, expected) in cases {
        let ram = run_on_fresh(&["push constant 7", "push constant 5", op]);
        assert_eq!(ram[SP], 257);
        assert_eq!(ram[256], expected, "{op}");
    }
    let ram = run_on_fresh(&["push constant 7", "neg"]);
    assert_eq!((ram[SP], ram[256]), (257, -7));
    let ram = run_on_fresh(&["push constant 7", "not"]);
    assert_eq!((ram[SP], ram[256]), (257, !7));
}

#[test]
fn stack_depth_changes_by_the_instruction_kind() {
    let depth_after = |lines: &[&str]| run_on_fresh(lines)[SP] - 256;
    let two = ["push constant 3", "push constant 4"];
    assert_eq!(depth_after(&two), 2);
    for op in ["add", "sub", "and", "or", "eq", "lt", "gt"] {
        assert_eq!(depth_after(&[two[0], two[1], op]), 1, "{op}");
    }
    for op in ["neg", "not"] {
        assert_eq!(depth_after(&[two[0], two[1], op]), 2, "{op}");
    }
    for segment in ["local", "argument", "this", "that", "temp", "static", "constant"] {
        let push = format!("push {segment} 2");
        assert_eq!(depth_after(&[two[0], two[1], &push]), 3, "{push}");
    }
    for segment in ["local", "argument", "this", "that", "temp", "static"] {
        let pop = format!("pop {segment} 2");
        assert_eq!(depth_after(&[two[0], two[1], &pop]), 1, "{pop}");
    }
    assert_eq!(depth_after(&[two[0], two[1], "push pointer 1"]), 3);
    assert_eq!(depth_after(&[two[0], two[1], "pop pointer 0"]), 1);
    assert_eq!(depth_after(&[two[0], two[1], "if-goto END", "label END"]), 1);
}

#[test]
fn push_then_pop_changes_nothing_but_scratch_cells() {
    for segment in ["local", "argument", "this", "that", "temp", "static", "pointer"] {
        let offset = if segment == "pointer" { 1 } else { 3 };
        let push = format!("push {segment} {offset}");
        let pop = format!("pop {segment} {offset}");
        let before = fresh_ram();
        let after = run_on_fresh(&[&push, &pop]);
        for at in 0..before.len() {
            // The cell above the stack and the address scratch register
            // are free for the generated code to use.
            if at != 256 && at != R13 {
                assert_eq!(before[at], after[at], "{segment}: cell {at}");
            }
        }
    }
}

#[test]
fn segments_address_what_they_name() {
    let ram = run_on_fresh(&["push constant 21", "pop local 2", "push constant 22", "pop argument 1"]);
    assert_eq!((ram[302], ram[401], ram[SP]), (21, 22, 256));
    let ram = run_on_fresh(&["push constant 23", "pop this 4", "push constant 24", "pop that 0"]);
    assert_eq!((ram[3004], ram[3010]), (23, 24));
    let ram = run_on_fresh(&["push constant 25", "pop temp 6", "push temp 6"]);
    assert_eq!((ram[11], ram[256], ram[SP]), (25, 25, 257));
    let ram = run_on_fresh(&["push constant 26", "pop pointer 0", "push constant 27", "pop pointer 1"]);
    assert_eq!((ram[THIS], ram[THAT]), (26, 27));
    let ram = run_on_fresh(&["push constant 7", "pop static 0", "push static 0"]);
    assert_eq!((ram[16], ram[256], ram[SP]), (7, 7, 257));
    let ram = run_on_fresh(&["push local 2"]);
    assert_eq!(ram[256], fresh_ram()[302]);
}

#[test]
fn branches_jump_where_they_say() {
    let ram = run_on_fresh(&[
        "push constant 1", "if-goto SKIP", "push constant 50", "label SKIP", "push constant 60",
    ]);
    assert_eq!((ram[SP], ram[256]), (257, 60));
    let ram = run_on_fresh(&[
        "push constant 0", "if-goto SKIP", "push constant 50", "label SKIP", "push constant 60",
    ]);
    assert_eq!((ram[SP], ram[256], ram[257]), (258, 50, 60));
    let ram = run_on_fresh(&["goto END", "push constant 50", "label END"]);
    assert_eq!(ram[SP], 256);
}

#[test]
fn call_and_return_keep_the_callers_frame() {
    let ram = run_on_fresh(&[
        "push constant 11",
        "push constant 31",
        "call Foo 1",
        "goto END",
        "function Foo 2",
        "push argument 0",
        "push local 0",
        "add",
        "push constant 2",
        "add",
        "return",
        "label END",
    ]);
    let before = fresh_ram();
    // One argument gave way to the returned value: 31 + 0 + 2.
    assert_eq!(ram[SP], 258);
    assert_eq!(ram[256], 11);
    assert_eq!(ram[257], 33);
    assert_eq!(ram[LCL], before[LCL]);
    assert_eq!(ram[ARG], before[ARG]);
    assert_eq!(ram[THIS], before[THIS]);
    assert_eq!(ram[THAT], before[THAT]);
    // The frame that the call saved: four pointers above the return address.
    assert_eq!(&ram[259..263], &[before[LCL], before[ARG], before[THIS], before[THAT]]);
    // The callee's two locals were zeroed.
    assert_eq!(&ram[263..265], &[0, 0]);
}

#[test]
fn function_call_return_scenario() {
    let ram = run_on_fresh(&["call Foo 0", "goto END", "function Foo 2", "return", "label END"]);
    let before = fresh_ram();
    // With no argument the returned value (the callee's last local, a zero)
    // lands where the return address was, and the stack ends one cell above.
    assert_eq!(ram[SP], 257);
    assert_eq!(ram[256], 0);
    assert_eq!(&ram[LCL..=THAT], &before[LCL..=THAT]);
}
