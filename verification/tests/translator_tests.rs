use std::collections::HashMap;
use vm_translator::code_writer::CodeWriter;
use vm_translator::error::TranslateError;
use vm_translator::translator::{translate_unit, vm_translator, SourceUnit};

fn unit(name: &str, text: &str) -> SourceUnit {
    SourceUnit {
        name: name.to_string(),
        lines: text.lines().map(String::from).collect(),
    }
}

fn translate(units: Vec<SourceUnit>) -> String {
    String::from_utf8(vm_translator("Out", units).unwrap()).unwrap()
}

/// One instruction of the target machine, with its symbols resolved.
enum Instruction {
    Load(u16),
    Compute(String, String, String),
}

/// Turns assembly text into instructions, as the target's assembler does:
/// labels name the next instruction, other symbols name memory words from 16
/// upwards in the order in which they first occur.
fn assemble(text: &str) -> Vec<Instruction> {
    let mut symbols: HashMap<String, u16> = HashMap::new();
    for (name, address) in [("SP", 0), ("LCL", 1), ("ARG", 2), ("THIS", 3), ("THAT", 4)] {
        symbols.insert(name.to_string(), address);
    }
    for r in 0..16u16 {
        symbols.insert(format!("R{}", r), r);
    }
    let mut source: Vec<String> = Vec::new();
    for line in text.lines() {
        let code = match line.find("//") {
            Some(at) => &line[..at],
            None => line,
        };
        let code = code.trim();
        if code.is_empty() {
            continue;
        }
        if code.starts_with('(') {
            assert!(code.ends_with(')'), "label: {:?}", code);
            let name = code[1..code.len() - 1].to_string();
            let known = symbols.insert(name, source.len() as u16);
            assert!(known.is_none(), "label declared twice: {:?}", code);
        } else {
            source.push(code.to_string());
        }
    }
    let mut next_variable = 16;
    let mut program = Vec::new();
    for code in source {
        if let Some(symbol) = code.strip_prefix('@') {
            let value = match symbol.parse::<u16>() {
                Ok(n) => n,
                Err(_) => *symbols.entry(symbol.to_string()).or_insert_with(|| {
                    next_variable += 1;
                    next_variable - 1
                }),
            };
            program.push(Instruction::Load(value));
        } else {
            let (rest, jump) = match code.split_once(';') {
                Some((rest, jump)) => (rest, jump),
                None => (code.as_str(), ""),
            };
            let (dest, comp) = match rest.split_once('=') {
                Some((dest, comp)) => (dest, comp),
                None => ("", rest),
            };
            program.push(Instruction::Compute(
                dest.to_string(),
                comp.to_string(),
                jump.to_string(),
            ));
        }
    }
    program
}

/// The memory of the target machine after `steps` instructions.
fn run(text: &str, steps: usize) -> Vec<i16> {
    let program = assemble(text);
    let mut ram = vec![0i16; 1 << 16];
    let (mut a, mut d, mut pc) = (0i16, 0i16, 0usize);
    for _ in 0..steps {
        match &program[pc] {
            Instruction::Load(value) => {
                a = *value as i16;
                pc += 1;
            }
            Instruction::Compute(dest, comp, jump) => {
                let m = ram[a as u16 as usize];
                let value = match comp.as_str() {
                    "0" => 0,
                    "1" => 1,
                    "-1" => -1,
                    "D" => d,
                    "A" => a,
                    "M" => m,
                    "!M" => !m,
                    "-M" => m.wrapping_neg(),
                    "D+1" => d.wrapping_add(1),
                    "M+1" => m.wrapping_add(1),
                    "M-1" => m.wrapping_sub(1),
                    "D+A" => d.wrapping_add(a),
                    "D+M" => d.wrapping_add(m),
                    "D-M" => d.wrapping_sub(m),
                    "M-D" => m.wrapping_sub(d),
                    "D&M" => d & m,
                    "D|M" => d | m,
                    other => panic!("computation: {:?}", other),
                };
                if dest.contains('M') {
                    ram[a as u16 as usize] = value;
                }
                if dest.contains('D') {
                    d = value;
                }
                let target = a as u16 as usize;
                if dest.contains('A') {
                    a = value;
                }
                let taken = match jump.as_str() {
                    "" => false,
                    "JEQ" => value == 0,
                    "JGT" => value > 0,
                    "JLT" => value < 0,
                    "JNE" => value != 0,
                    "JMP" => true,
                    other => panic!("jump: {:?}", other),
                };
                pc = if taken { target } else { pc + 1 };
            }
        }
    }
    ram
}

/// The memory after a program that consists of `body` as the entry function,
/// with `locals` local variables, has run to its end.
fn run_body(body: &str, locals: u16) -> Vec<i16> {
    let text = format!("function Sys.init {}\n{}\nlabel HALT\ngoto HALT\n", locals, body);
    run(&translate(vec![unit("Sys", &text)]), 20000)
}

fn top(ram: &[i16]) -> i16 {
    ram[ram[0] as usize - 1]
}

#[test]
fn pushed_constant_comes_back_from_every_segment() {
    let targets = [
        "local 0",
        "local 2",
        "argument 1",
        "this 3",
        "that 4",
        "temp 0",
        "temp 7",
        "pointer 0",
        "pointer 1",
        "static 0",
        "static 5",
    ];
    for n in [0u16, 1, 17, 255, 32767] {
        for target in targets {
            let body = format!(
                "push constant 3000\npop pointer 0\npush constant 3010\npop pointer 1\npush constant {}\npop {}\npush {}",
                n, target, target
            );
            let ram = run_body(&body, 3);
            assert_eq!(n as i16, top(&ram), "{} through {}", n, target);
            assert_eq!(261 + 3 + 1, ram[0], "{} through {}", n, target);
        }
    }
}

#[test]
fn comparisons_leave_all_bits_set_or_zero() {
    let values = [0u16, 1, 2, 5, 32767];
    for x in values {
        for y in values {
            for (op, truth) in [("eq", x == y), ("gt", x > y), ("lt", x < y)] {
                let body = format!("push constant {}\npush constant {}\n{}", x, y, op);
                let ram = run_body(&body, 0);
                let expect = if truth { -1 } else { 0 };
                assert_eq!(expect, top(&ram), "{} {} {}", x, y, op);
                assert_eq!(262, ram[0]);
            }
        }
    }
    let ram = run_body("push constant 5\nneg\npush constant 3\nlt", 0);
    assert_eq!(-1, top(&ram));
    let ram = run_body("push constant 5\nneg\npush constant 3\ngt", 0);
    assert_eq!(0, top(&ram));
}

#[test]
fn sub_takes_the_second_operand_from_the_first() {
    let ram = run_body("push constant 5\npush constant 3\nsub", 0);
    assert_eq!(2, top(&ram));
    assert_eq!(262, ram[0]);
    let ram = run_body("push constant 3\npush constant 5\nsub", 0);
    assert_eq!(-2, top(&ram));
    let ram = run_body("push constant 0\npush constant 32767\nsub\npush constant 2\nsub", 0);
    assert_eq!(32767, top(&ram));
}

#[test]
fn other_operations_compute_on_the_stack() {
    assert_eq!(8, top(&run_body("push constant 5\npush constant 3\nadd", 0)));
    assert_eq!(-5, top(&run_body("push constant 5\nneg", 0)));
    assert_eq!(!5, top(&run_body("push constant 5\nnot", 0)));
    assert_eq!(1, top(&run_body("push constant 5\npush constant 3\nand", 0)));
    assert_eq!(7, top(&run_body("push constant 5\npush constant 3\nor", 0)));
    let ram = run_body("push constant 9\npush constant 5\nneg", 0);
    assert_eq!(263, ram[0]);
    assert_eq!(9, ram[261]);
}

#[test]
fn locals_start_at_zero() {
    let ram = run_body("push local 0\npush local 1\npush local 2\nadd\nadd", 3);
    assert_eq!(0, top(&ram));
    assert_eq!(265, ram[0]);
    assert_eq!(261, ram[1]);
}

#[test]
fn if_goto_jumps_on_any_word_but_zero() {
    let body = |n: i32| {
        format!(
            "push constant {}\nif-goto YES\npush constant 10\ngoto DONE\nlabel YES\npush constant 20\nlabel DONE",
            n
        )
    };
    assert_eq!(10, top(&run_body(&body(0), 0)));
    assert_eq!(20, top(&run_body(&body(1), 0)));
    assert_eq!(20, top(&run_body(&body(7), 0)));
}

const COUNT_DOWN: &str = "
function Count.down 2
push argument 0
push constant 0
eq
if-goto BASE
push argument 0
pop local 1
push argument 0
push constant 1
sub
call Count.down 1
push local 1
add
return
label BASE
push constant 0
return
";

#[test]
fn recursive_calls_return_to_their_callers() {
    for depth in [0u16, 1, 2, 5, 40] {
        let sys = format!(
            "function Sys.init 1\npush constant 4000\npop pointer 0\npush constant 5000\npop pointer 1\npush constant 77\npop local 0\npush constant {}\ncall Count.down 1\nlabel HALT\ngoto HALT\n",
            depth
        );
        let text = translate(vec![unit("Sys", &sys), unit("Count", COUNT_DOWN)]);
        let ram = run(&text, 200000);
        let sum: i32 = (1..=depth as i32).sum();
        assert_eq!(sum as i16, top(&ram), "depth {}", depth);
        assert_eq!(263, ram[0], "depth {}", depth);
        assert_eq!(261, ram[1], "depth {}", depth);
        assert_eq!(256, ram[2], "depth {}", depth);
        assert_eq!(4000, ram[3], "depth {}", depth);
        assert_eq!(5000, ram[4], "depth {}", depth);
        assert_eq!(77, ram[261], "depth {}", depth);
    }
}

const FIBONACCI_MAIN: &str = "
// Computes the n'th element of the Fibonacci series, recursively.
// n is given in argument[0].  Called by the Sys.init function
// (part of the Sys.vm file), which also pushes the argument[0]
// parameter before this code starts running.

function Main.fibonacci 0
	push argument 0
	push constant 2
	lt                     // checks if n<2
	if-goto IF_TRUE
	goto IF_FALSE
label IF_TRUE          // if n<2, return n
	push argument 0
	return
label IF_FALSE         // if n>=2, returns fib(n-2)+fib(n-1)
	push argument 0
	push constant 2
	sub
	call Main.fibonacci 1  // computes fib(n-2)
	push argument 0
	push constant 1
	sub
	call Main.fibonacci 1  // computes fib(n-1)
	add                    // returns fib(n-1) + fib(n-2)
	return
";

const FIBONACCI_SYS: &str = "
// Pushes a constant, say n, onto the stack, and calls the Main.fibonacii
// function, which computes the n'th element of the Fibonacci series.
// Note that by convention, the Sys.init function is called \"automatically\"
// by the bootstrap code.

function Sys.init 0
push constant 4
call Main.fibonacci 1   // computes the 4'th fibonacci element
label WHILE
goto WHILE              // loops infinitely
";

#[test]
fn run_translator() {
    let units = vec![
        unit("Main", FIBONACCI_MAIN),
        unit("Sys", FIBONACCI_SYS),
    ];
    let text = String::from_utf8(vm_translator("FibonacciElement", units).unwrap()).unwrap();
    let ram = run(&text, 6000);
    assert_eq!(262, ram[0]);
    assert_eq!(3, ram[261]);
}

#[test]
fn whole_text_is_bootstrap_then_commands_then_final_loop() {
    let text = translate(vec![unit("Only", "// nothing\n\nlabel A\ngoto A\n   \n// end")]);
    let bootstrap = String::from_utf8(CodeWriter::new("Out").output().clone()).unwrap();
    assert_eq!(
        format!("{}(A)\n@A\n0;JMP\n(END)\n@END\n0;JMP\n", bootstrap),
        text
    );
    assert_eq!(
        format!("{}(END)\n@END\n0;JMP\n", bootstrap),
        translate(vec![])
    );
    assert_eq!(
        format!("{}(END)\n@END\n0;JMP\n", bootstrap),
        translate(vec![unit("Empty", ""), unit("Blank", "\n\n  \n// note\n")])
    );
    assert_eq!(
        format!("{}(END)\n@END\n0;JMP\n@END\n0;JMP\n", bootstrap),
        translate(vec![unit("Ends", "label END\ngoto END")])
    );
}

#[test]
fn every_command_gets_a_number_of_its_own() {
    let first = "push constant 1\npush constant 1\neq\ncall f 0\n";
    let second = "eq\ncall f 0\nlt\n";
    let text = translate(vec![unit("A", first), unit("B", second)]);
    for label in [
        "(Sys.init$ret.0)",
        "(TRUE3)",
        "(PUSH3)",
        "(f$ret.4)",
        "(TRUE5)",
        "(PUSH5)",
        "(f$ret.6)",
        "(TRUE7)",
        "(PUSH7)",
    ] {
        assert_eq!(1, text.matches(label).count(), "{}", label);
    }
    assert_eq!(3, text.matches("(TRUE").count());
    assert_eq!(3, text.matches("(PUSH").count());
    assert_eq!(3, text.matches("$ret.").count() / 2);
    assemble(&text);
}

#[test]
fn call_of_the_entry_function_gets_a_number_of_its_own() {
    let text = translate(vec![unit("Sys", "call Sys.init 0\nfunction Sys.init 0")]);
    assert_eq!(1, text.matches("(Sys.init$ret.0)").count());
    assert_eq!(1, text.matches("(Sys.init$ret.1)").count());
    assert_eq!(1, text.matches("@Sys.init$ret.0\n").count());
    assert_eq!(1, text.matches("@Sys.init$ret.1\n").count());
    assemble(&text);
}

#[test]
fn bootstrap_sets_the_stack_pointer_and_calls_the_entry_function() {
    let text = translate(vec![unit("Sys", "function Sys.init 0\nlabel HALT\ngoto HALT")]);
    assert!(text.starts_with(
        "// bootstrap     \n@256\nD=A\n@SP\nM=D\n\n// call function Sys.init\n"
    ));
    let ram = run(&text, 1000);
    assert_eq!(261, ram[0]);
    assert_eq!(261, ram[1]);
    assert_eq!(256, ram[2]);
    assert_eq!(0, ram[3]);
    assert_eq!(0, ram[4]);
}

#[test]
fn static_variables_of_two_units_are_apart() {
    let text = translate(vec![
        unit("Sys", "function Sys.init 0\npush constant 11\npop static 0\ncall Other.set 0\npop temp 0\npush static 0\nlabel HALT\ngoto HALT"),
        unit("Other", "function Other.set 0\npush constant 22\npop static 0\npush static 0\nreturn"),
    ]);
    assert!(text.contains("@Sys.0\n"));
    assert!(text.contains("@Other.0\n"));
    let ram = run(&text, 20000);
    assert_eq!(11, top(&ram));
    assert_eq!(22, ram[5]);
}

#[test]
fn translation_stops_at_the_first_error() {
    let syntax = |line: &str| Err(TranslateError::Syntax(line.to_string()));
    assert_eq!(
        syntax("jump A"),
        vm_translator("Out", vec![unit("A", "add\n  jump A  \npush heap 1")])
    );
    let unsupported = |line: &str, segment: &str, index: u16| {
        Err(TranslateError::UnsupportedCommand(
            line.to_string(),
            segment.to_string(),
            index,
        ))
    };
    assert_eq!(
        unsupported("push heap 1", "heap", 1),
        vm_translator("Out", vec![unit("A", "add\n  push heap 1\njump A")])
    );
    assert_eq!(
        unsupported("pop pointer 2", "pointer", 2),
        vm_translator("Out", vec![unit("A", "add"), unit("B", "pop pointer 2\njump")])
    );
    assert_eq!(
        unsupported("pop constant 2 // no", "constant", 2),
        vm_translator("Out", vec![unit("A", "\tpop constant 2 // no")])
    );
    assert_eq!(
        unsupported("push temp 8", "temp", 8),
        vm_translator("Out", vec![unit("A", "push temp 7\npush temp 8")])
    );
    assert_eq!(
        unsupported("pop temp 65530", "temp", 65530),
        vm_translator("Out", vec![unit("A", "pop temp 65530")])
    );
    assert_eq!(
        syntax("push local"),
        vm_translator("Out", vec![unit("A", "push local")])
    );
    let mut writer = CodeWriter::new("Out");
    assert_eq!(
        Err(TranslateError::Syntax("sub 1".to_string())),
        translate_unit(&mut writer, unit("A", "sub 1"))
    );
}

#[test]
fn translation_fails_when_the_counter_runs_out() {
    let lines = |n: usize| SourceUnit {
        name: "Long".to_string(),
        lines: vec!["label A".to_string(); n],
    };
    assert!(vm_translator("Out", vec![lines(65535)]).is_ok());
    assert!(vm_translator("Out", vec![lines(65000), lines(535), unit("Blank", "\n// end\n")]).is_ok());
    assert_eq!(
        Err(TranslateError::CounterExhausted("label A".to_string())),
        vm_translator("Out", vec![lines(65536)])
    );
    assert_eq!(
        Err(TranslateError::Syntax("jump".to_string())),
        vm_translator("Out", vec![lines(65000), lines(535), unit("Last", "  jump")])
    );
    assert_eq!(
        Err(TranslateError::CounterExhausted("pop constant 1".to_string())),
        vm_translator("Out", vec![lines(65000), lines(535), unit("Last", "pop constant 1")])
    );
    assert_eq!(
        Err(TranslateError::CounterExhausted("add".to_string())),
        vm_translator("Out", vec![lines(65000), lines(535), unit("Last", "\n add \nsub")])
    );
    let mut writer = CodeWriter::new("Out");
    translate_unit(&mut writer, lines(10)).unwrap();
    assert_eq!(10, writer.uniq_index());
    assert_eq!("Long", writer.source_name());
    translate_unit(&mut writer, unit("Next", "\nadd // one\n\nadd\n")).unwrap();
    assert_eq!(12, writer.uniq_index());
    assert_eq!("Next", writer.source_name());
}

const COUNTING_DOWN: &str = "
function Count.zero 0
push argument 0
if-goto AGAIN
push constant 0
return
label AGAIN
push argument 0
push constant 1
sub
call Count.zero 1
return
";

#[test]
fn function_that_counts_down_returns_from_every_depth() {
    for depth in [0u16, 1, 2, 3, 10, 100] {
        let sys = format!(
            "function Sys.init 0\npush constant 4000\npop pointer 0\npush constant 5000\npop pointer 1\npush constant 77\npush constant {}\ncall Count.zero 1\nlabel HALT\ngoto HALT\n",
            depth
        );
        let text = translate(vec![unit("Count", COUNTING_DOWN), unit("Sys", &sys)]);
        let ram = run(&text, 400 + 250 * depth as usize);
        assert_eq!(263, ram[0], "depth {}", depth);
        assert_eq!(0, ram[262], "depth {}", depth);
        assert_eq!(77, ram[261], "depth {}", depth);
        assert_eq!(261, ram[1], "depth {}", depth);
        assert_eq!(256, ram[2], "depth {}", depth);
        assert_eq!(4000, ram[3], "depth {}", depth);
        assert_eq!(5000, ram[4], "depth {}", depth);
    }
}

#[test]
fn function_that_counts_down_has_its_labels_where_the_proof_has_them() {
    let text = translate(vec![unit("Count", COUNTING_DOWN)]);
    let count = text.split("(Count.zero)\n").nth(1).unwrap();
    let count = count.strip_suffix("(END)\n@END\n0;JMP\n").unwrap();
    let lines: Vec<&str> = count.lines().collect();
    assert_eq!(295, lines.len());
    assert_eq!("(AGAIN)", lines[97]);
    assert_eq!("(Count.zero$ret.10)", lines[231]);
    assert_eq!("0;JMP", lines[230 - 2]);
}
