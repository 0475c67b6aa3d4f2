use vm_translator::arithmetic::ArithmeticCommandHelper;
use vm_translator::assembly::{Comp, Dest, Fragment, Jump, Line, Pointer, Symbol, VariableRegister};
use vm_translator::code_writer::CodeWriter;
use vm_translator::command::{Command, Operation, Segment};
use vm_translator::error::TranslateError;
use vm_translator::fragments::{
    arithmetic_fragment, call_fragment, function_fragment, goto_fragment, operation_fragment,
    pop_fragment, zero_push_fragment,
};
use vm_translator::parser::CommandType;

const SOURCE_NAME: &str = "Sample";

fn get_code_writer() -> (CodeWriter, String) {
    (CodeWriter::new(SOURCE_NAME), SOURCE_NAME.to_string())
}

fn normalize(s: &str) -> String {
    s.lines().map(str::trim).collect::<Vec<_>>().join("")
}

fn written(code_writer: &CodeWriter) -> String {
    String::from_utf8(code_writer.output().clone()).unwrap()
}

fn written_after(code_writer: &CodeWriter, start: usize) -> String {
    String::from_utf8(code_writer.output()[start..].to_vec()).unwrap()
}

const PUSH_TEXT: &str = "
// push
@SP
A=M
M=D
@SP
M=M+1
";

const POP_TEXT: &str = "
// pop
@SP
M=M-1
A=M
D=M
";

#[test]
fn playground() {
    assert_eq!("R13", VariableRegister::R13.as_ref());
}

#[test]
fn test_write_segment_when_constant() {
    let (code_writer, _) = get_code_writer();
    let (segment, index) = ("constant", 10);
    let asm_file_content = code_writer
        .get_segment_code(CommandType::Push, &segment, index)
        .unwrap();

    let expect_asm = "// constant 10
        @10
        D=A
        // push
        @SP
        A=M
        M=D
        @SP
        M=M+1";
    assert_eq!(normalize(expect_asm), normalize(&asm_file_content));
}

#[test]
fn test_write_segment_when_push() {
    let (code_writer, _) = get_code_writer();
    let (segment, index) = ("that", 5);
    let asm_file_content = code_writer
        .get_segment_code(CommandType::Push, &segment, index)
        .unwrap();

    let expect_asm = format!(
        "@{}
        D=A
        // that {}
        @THAT
        A=D+M
        D=M
        // push
        @SP
        A=M
        M=D
        @SP
        M=M+1",
        index, index,
    );
    assert_eq!(normalize(&expect_asm), normalize(&asm_file_content));
}

#[test]
fn test_push_command() {
    let (mut code_writer, _) = get_code_writer();
    let (segment, index) = ("that", 5);
    code_writer
        .write_push_pop(CommandType::Push, &segment, index)
        .unwrap();

    let asm_file_content = written(&code_writer);

    let expect_asm = format!(
        "{}
        @{}
        D=A
        // that {}
        @THAT
        A=D+M
        D=M
        // push
        @SP
        A=M
        M=D
        @SP
        M=M+1",
        code_writer.get_bootstrap_code(),
        index,
        index,
    );
    assert_eq!(normalize(&expect_asm), normalize(&asm_file_content));
}

#[test]
fn test_push_command_when_temp() {
    let (mut code_writer, _) = get_code_writer();
    let (segment, index) = ("temp", 6);
    code_writer
        .write_push_pop(CommandType::Push, &segment, index)
        .unwrap();

    let asm_file_content = written(&code_writer);

    let expect_asm = format!(
        "
        {}
        // temp {}
        @{}
        D=M
        // push
        @SP
        A=M
        M=D
        @SP
        M=M+1",
        code_writer.get_bootstrap_code(),
        index + 5,
        index + 5,
    );
    assert_eq!(normalize(&expect_asm), normalize(&asm_file_content));
}

#[test]
fn test_pop_command_when_static() {
    let (mut code_writer, test_file_name) = get_code_writer();
    let (segment, index) = ("static", 10);
    code_writer
        .write_push_pop(CommandType::Pop, &segment, index)
        .unwrap();

    let asm_file_content = written(&code_writer);

    let expect_asm = format!(
        "{}
        // pop
        @SP
        M=M-1
        A=M
        D=M
        // static {}
        @{}.{}
        M=D",
        code_writer.get_bootstrap_code(),
        index,
        test_file_name,
        index,
    );
    assert_eq!(normalize(&expect_asm), normalize(&asm_file_content));
}

#[test]
fn test_pop_command_when_temp() {
    let (mut code_writer, _) = get_code_writer();
    let (segment, index) = ("temp", 6);
    code_writer
        .write_push_pop(CommandType::Pop, &segment, index)
        .unwrap();

    let asm_file_content = written(&code_writer);

    let expect_asm = format!(
        "{}
// temp {}
@{}
D=A

@{}
M=D

// pop
@SP
M=M-1
A=M
D=M

@R13
A=M
M=D
        ",
        code_writer.get_bootstrap_code(),
        index + 5,
        index + 5,
        VariableRegister::R13.as_ref(),
    );
    assert_eq!(normalize(&expect_asm), normalize(&asm_file_content));
}

#[test]
fn test_pop_command() {
    let (mut code_writer, _) = get_code_writer();
    let (segment, index) = ("local", 6);
    code_writer
        .write_push_pop(CommandType::Pop, &segment, index)
        .unwrap();

    let asm_file_content = written(&code_writer);

    let expect_asm = format!(
        "{}
        @{}
        D=A
        // local {}
        @LCL
        D=D+M
        @R13
        M=D
        // pop
        @SP
        M=M-1
        A=M
        D=M
        @R13
        A=M
        M=D
        ",
        code_writer.get_bootstrap_code(),
        index,
        index,
    );
    assert_eq!(normalize(&expect_asm), normalize(&asm_file_content));
}

#[test]
fn test_write_arithmetic() {
    let (mut code_writer, _) = get_code_writer();
    code_writer.write_arithmetic("add").unwrap();

    let asm_file_content = written(&code_writer);

    let expect_asm = format!(
        "{}
        // pop
        @SP
        M=M-1
        A=M
        D=M
        @R13
        M=D
        // pop
        @SP
        M=M-1
        A=M
        D=M
        @R13
        // add
        D=D+M
        // push
        @SP
        A=M
        M=D
        @SP
        M=M+1",
        code_writer.get_bootstrap_code(),
    );
    assert_eq!(normalize(&expect_asm), normalize(&asm_file_content));
}

#[test]
fn test_write_arithmetic_when_sub() {
    let (mut code_writer, _) = get_code_writer();
    code_writer.write_arithmetic("sub").unwrap();

    let asm_file_content = written(&code_writer);

    let expect_asm = format!(
        "{}
        // pop
        @SP
        M=M-1
        A=M
        D=M
        @R13
        M=D
        // pop
        @SP
        M=M-1
        A=M
        D=M
        @R13
        // sub
        D=D-M
        // push
        @SP
        A=M
        M=D
        @SP
        M=M+1",
        code_writer.get_bootstrap_code()
    );
    assert_eq!(normalize(&expect_asm), normalize(&asm_file_content));
}

#[test]
fn test_write_call_code() {
    let (mut code_writer, _) = get_code_writer();
    let (function_name, n_args) = ("SimpleFunction.test", 2);
    code_writer.write_call(function_name, n_args).unwrap();
    let expect = format!(
        "{}
// call function SimpleFunction.test
// push returnAddress
@{}$ret.0
D=A
// push
@SP
A=M
M=D
@SP
M=M+1

@LCL
D=M
// push
@SP
A=M
M=D
@SP
M=M+1

@ARG
D=M
// push
@SP
A=M
M=D
@SP
M=M+1

@THIS
D=M
// push
@SP
A=M
M=D
@SP
M=M+1

@THAT
D=M
// push
@SP
A=M
M=D
@SP
M=M+1

// ARG=SP-5-nArgs
@5
D=A
@{}
D=D+A
@SP
D=M-D
@ARG
M=D

// LCL=SP
@SP
D=M
@LCL
M=D

// goto function {}
@{}
0;JMP

({}$ret.0)
",
        code_writer.get_bootstrap_code(),
        function_name,
        n_args,
        function_name,
        function_name,
        function_name,
    );
    let actual = written(&code_writer);

    assert_eq!(normalize(&expect), normalize(&actual));
}

#[test]
fn test_write_function_code() {
    let (mut code_writer, _) = get_code_writer();
    let (function_name, n_args) = ("SimpleFunction.test", 1);
    code_writer.write_function(function_name, n_args).unwrap();

    let expect = format!(
        "
{}
({})
@0
D=A
// push
@SP
A=M
M=D
@SP
M=M+1
",
        code_writer.get_bootstrap_code(),
        function_name,
    );
    let actual = written(&code_writer);

    assert_eq!(normalize(&expect), normalize(&actual));
}

#[test]
fn test_write_function_code_when_args_zero() {
    let (mut code_writer, _) = get_code_writer();
    let (function_name, n_args) = ("SimpleFunction.test", 0);
    code_writer.write_function(function_name, n_args).unwrap();

    let expect = format!(
        "
{}
({})
",
        code_writer.get_bootstrap_code(),
        function_name,
    );
    let actual = written(&code_writer);

    assert_eq!(normalize(&expect), normalize(&actual));
}

#[test]
fn test_write_infinity_loop() {
    let (code_writer, _) = get_code_writer();
    let asm_file_content = code_writer.get_infinity_loop_code();

    let expect_asm = "
        (END)
        @END
        0;JMP
        ";
    assert_eq!(normalize(expect_asm), normalize(&asm_file_content));
}

#[test]
fn register_names() {
    assert_eq!("R14", VariableRegister::R14.as_ref());
    assert_eq!("R15", VariableRegister::R15.as_ref());
}

#[test]
fn push_and_pop_code_text() {
    let (code_writer, _) = get_code_writer();
    assert_eq!(PUSH_TEXT, code_writer.get_push_code());
    assert_eq!(POP_TEXT, code_writer.get_pop_code());
    assert_eq!(
        "@R13\nM=D",
        code_writer.get_load_register_code(VariableRegister::R13)
    );
}

#[test]
fn new_writer_holds_the_bootstrap_code_only() {
    let (code_writer, _) = get_code_writer();
    let bootstrap = code_writer.get_bootstrap_code();
    assert!(bootstrap.starts_with(
        "\n// bootstrap     \n@256\nD=A\n@SP\nM=D\n\n// call function Sys.init\n"
    ));
    assert!(bootstrap.ends_with("\n@Sys.init\n0;JMP\n\n\n(Sys.init$ret.0)\n\n"));
    assert_eq!(
        unindent::unindent_bytes(bootstrap.as_bytes()),
        *code_writer.output()
    );
    assert_eq!(0, code_writer.uniq_index());
    assert!(code_writer.bootstrap_emitted());
    assert_eq!(SOURCE_NAME, code_writer.source_name());
    assert!(!code_writer.has_end_label());
}

#[test]
fn bootstrap_code_is_written_once() {
    let (mut code_writer, _) = get_code_writer();
    assert!(code_writer.bootstrap_emitted());
    let before = code_writer.output().clone();
    assert_eq!(
        Err(TranslateError::InternalInvariant),
        code_writer.write_bootstrap_code()
    );
    assert_eq!(before, *code_writer.output());
    assert_eq!(1, written(&code_writer).matches("// bootstrap").count());
}

#[test]
fn written_code_loses_its_leading_empty_line() {
    let (mut code_writer, _) = get_code_writer();
    let start = code_writer.output().len();
    code_writer.write_label("LOOP").unwrap();
    assert_eq!("(LOOP)\n", written_after(&code_writer, start));
    let start = code_writer.output().len();
    code_writer.write_goto("LOOP").unwrap();
    assert_eq!("@LOOP\n0;JMP\n", written_after(&code_writer, start));
    let start = code_writer.output().len();
    code_writer.write_push_pop(CommandType::Pop, "static", 2).unwrap();
    assert_eq!(
        "\n// pop\n@SP\nM=M-1\nA=M\nD=M\n\n// static 2\n@Sample.2\n\nM=D\n",
        written_after(&code_writer, start)
    );
    let start = code_writer.output().len();
    code_writer.write_push_pop(CommandType::Push, "constant", 2).unwrap();
    assert_eq!(
        "// constant 2\n@2\nD=A\n\n// push\n@SP\nA=M\nM=D\n@SP\nM=M+1\n",
        written_after(&code_writer, start)
    );
    let start = code_writer.output().len();
    code_writer.write_label("A\n  B").unwrap();
    assert_eq!("(A\n  B)\n", written_after(&code_writer, start));
    let start = code_writer.output().len();
    code_writer.write_arithmetic("or").unwrap();
    assert_eq!(
        "// pop\n@SP\nM=M-1\nA=M\nD=M\n\n@R13\nM=D\n\n// pop\n@SP\nM=M-1\nA=M\nD=M\n\n        @R13\n        // or\nD=D|M\n        \n\n// push\n@SP\nA=M\nM=D\n@SP\nM=M+1\n",
        written_after(&code_writer, start)
    );
    let start = code_writer.output().len();
    code_writer.write_arithmetic("lt").unwrap();
    assert_eq!(
        "// pop\n@SP\nM=M-1\nA=M\nD=M\n\n@R13\nM=D\n\n// pop\n@SP\nM=M-1\nA=M\nD=M\n\n@R13\nD=D-M\n@TRUE0\n// lt\nD;JLT\nD=0\n@PUSH0\n0;JMP\n(TRUE0)\nD=-1\n(PUSH0)\n\n\n// push\n@SP\nA=M\nM=D\n@SP\nM=M+1\n",
        written_after(&code_writer, start)
    );
}

#[test]
fn segment_code_text_of_every_kind() {
    let (code_writer, _) = get_code_writer();
    let code = |command, segment: &str, index| {
        code_writer
            .get_segment_code(command, segment, index)
            .unwrap()
    };
    assert_eq!(
        format!("// constant 7\n@7\nD=A\n{}", PUSH_TEXT),
        code(CommandType::Push, "constant", 7)
    );
    assert_eq!(
        format!("\n// temp 8\n@8\nD=M\n{}\n", PUSH_TEXT),
        code(CommandType::Push, "temp", 3)
    );
    assert_eq!(
        format!("\n// this 0\n@THIS\nD=M\n{}\n", PUSH_TEXT),
        code(CommandType::Push, "pointer", 0)
    );
    assert_eq!(
        format!("\n// that 1\n@THAT\nD=M\n{}\n", PUSH_TEXT),
        code(CommandType::Push, "pointer", 1)
    );
    assert_eq!(
        format!("\n// static 4\n@Sample.4\n\nD=M\n{}\n", PUSH_TEXT),
        code(CommandType::Push, "static", 4)
    );
    assert_eq!(
        format!("\n@2\nD=A\n// argument 2\n@ARG\nA=D+M\nD=M\n{}\n", PUSH_TEXT),
        code(CommandType::Push, "argument", 2)
    );
    assert_eq!(
        format!("\n@2\nD=A\n// local 2\n@LCL\nA=D+M\nD=M\n{}\n", PUSH_TEXT),
        code(CommandType::Push, "local", 2)
    );
    assert_eq!(
        format!("\n@2\nD=A\n// this 2\n@THIS\nA=D+M\nD=M\n{}\n", PUSH_TEXT),
        code(CommandType::Push, "this", 2)
    );
    assert_eq!(
        format!("\n{}\n// static 4\n@Sample.4\n\nM=D\n", POP_TEXT),
        code(CommandType::Pop, "static", 4)
    );
    assert_eq!(
        format!(
            "\n// temp 8\n@8\nD=A\n@R13\nM=D\n{}\n@R13\nA=M\nM=D\n",
            POP_TEXT
        ),
        code(CommandType::Pop, "temp", 3)
    );
    assert_eq!(
        format!(
            "\n// that 1\n@THAT\nD=A\n@R13\nM=D\n{}\n@R13\nA=M\nM=D\n",
            POP_TEXT
        ),
        code(CommandType::Pop, "pointer", 1)
    );
    assert_eq!(
        format!(
            "\n@9\nD=A\n// that 9\n@THAT\nD=D+M\n@R13\nM=D\n{}\n@R13\nA=M\nM=D\n",
            POP_TEXT
        ),
        code(CommandType::Pop, "that", 9)
    );
}

#[test]
fn unsupported_segments_are_refused() {
    let (mut code_writer, _) = get_code_writer();
    let before = code_writer.output().clone();
    assert_eq!(
        Err(TranslateError::UnsupportedSegment("pointer".to_string(), 2)),
        code_writer.get_segment_code(CommandType::Push, "pointer", 2)
    );
    assert_eq!(
        Err(TranslateError::UnsupportedSegment("pointer".to_string(), 2)),
        code_writer.write_push_pop(CommandType::Pop, "pointer", 2)
    );
    assert_eq!(
        Err(TranslateError::UnsupportedSegment("constant".to_string(), 1)),
        code_writer.write_push_pop(CommandType::Pop, "constant", 1)
    );
    assert_eq!(
        Err(TranslateError::UnsupportedSegment("heap".to_string(), 0)),
        code_writer.write_push_pop(CommandType::Push, "heap", 0)
    );
    assert_eq!(
        Err(TranslateError::UnsupportedSegment("temp".to_string(), 65531)),
        code_writer.write_push_pop(CommandType::Push, "temp", 65531)
    );
    for command in [CommandType::Push, CommandType::Pop] {
        assert_eq!(
            Err(TranslateError::UnsupportedSegment("temp".to_string(), 8)),
            code_writer.write_push_pop(command, "temp", 8)
        );
        assert_eq!(
            Err(TranslateError::UnsupportedSegment("temp".to_string(), 8)),
            code_writer.get_segment_code(command, "temp", 8).map(|_| ())
        );
        assert!(code_writer.get_segment_code(command, "temp", 0).is_ok());
        assert!(code_writer.get_segment_code(command, "temp", 7).is_ok());
    }
    assert_eq!(
        Err(TranslateError::UnsupportedSegment("temp".to_string(), 8)),
        code_writer.write_command(&Command::Push(Segment::Temp, 8))
    );
    assert!(code_writer
        .get_segment_code(CommandType::Push, "constant", 65535)
        .is_ok());
    assert_eq!(
        Err(TranslateError::UnsupportedSegment("local".to_string(), 0)),
        code_writer.write_push_pop(CommandType::Label, "local", 0)
    );
    assert_eq!(
        Err(TranslateError::UnsupportedSegment("heap".to_string(), 1)),
        code_writer.write_push_pop(CommandType::Return, "heap", 1)
    );
    assert_eq!(before, *code_writer.output());
}

#[test]
fn operation_code_text() {
    let register = VariableRegister::R13;
    assert_eq!(
        "@R13\n// add\nD=D+M",
        ArithmeticCommandHelper::get_command("add", &register, 0).unwrap()
    );
    assert_eq!(
        "@R13\n// neg\nD=-M",
        ArithmeticCommandHelper::get_command("neg", &register, 0).unwrap()
    );
    assert_eq!(
        "@R14\n// sub\nD=D-M",
        ArithmeticCommandHelper::get_command("sub", &VariableRegister::R14, 0).unwrap()
    );
    assert_eq!(
        "@R13\nD=D-M\n@TRUE12\n// eq\nD;JEQ\nD=0\n@PUSH12\n0;JMP\n(TRUE12)\nD=-1\n(PUSH12)\n",
        ArithmeticCommandHelper::get_command("eq", &register, 12).unwrap()
    );
    assert_eq!(
        "@R13\nD=D-M\n@TRUE0\n// gt\nD;JGT\nD=0\n@PUSH0\n0;JMP\n(TRUE0)\nD=-1\n(PUSH0)\n",
        ArithmeticCommandHelper::get_command("gt", &register, 0).unwrap()
    );
    assert_eq!(
        "@R13\nD=D-M\n@TRUE65535\n// lt\nD;JLT\nD=0\n@PUSH65535\n0;JMP\n(TRUE65535)\nD=-1\n(PUSH65535)\n",
        ArithmeticCommandHelper::get_command("lt", &register, 65535).unwrap()
    );
    assert_eq!(
        "        @R13\n        // and\nD=D&M\n        ",
        ArithmeticCommandHelper::get_command("and", &register, 0).unwrap()
    );
    assert_eq!(
        "        @R13\n        // or\nD=D|M\n        ",
        ArithmeticCommandHelper::get_command("or", &register, 0).unwrap()
    );
    assert_eq!(
        "        @R13\n        // not\nD=!M\n        ",
        ArithmeticCommandHelper::get_command("not", &register, 0).unwrap()
    );
    assert_eq!(
        "\n        @R13\n        // not\nD=!M\n        ",
        ArithmeticCommandHelper::get_template(Operation::Not, register, 0)
    );
    assert_eq!(
        Err(TranslateError::Syntax("address".to_string())),
        ArithmeticCommandHelper::get_command("address", &register, 0)
    );
}

#[test]
fn arithmetic_text_with_one_and_two_operands() {
    let (mut code_writer, _) = get_code_writer();
    let start = code_writer.output().len();
    code_writer.write_arithmetic("neg").unwrap();
    assert_eq!(
        "// pop\n@SP\nM=M-1\nA=M\nD=M\n\n@R13\nM=D\n\n@R13\n// neg\nD=-M\n\n// push\n@SP\nA=M\nM=D\n@SP\nM=M+1\n",
        written_after(&code_writer, start)
    );
    let start = code_writer.output().len();
    code_writer.write_arithmetic("sub").unwrap();
    assert_eq!(
        "// pop\n@SP\nM=M-1\nA=M\nD=M\n\n@R13\nM=D\n\n// pop\n@SP\nM=M-1\nA=M\nD=M\n\n@R13\n// sub\nD=D-M\n\n// push\n@SP\nA=M\nM=D\n@SP\nM=M+1\n",
        written_after(&code_writer, start)
    );
    assert_eq!(
        format!("{}\n@R13\nM=D\n\nXYZ\n{}", POP_TEXT, PUSH_TEXT),
        code_writer.get_arithmetic_code("XYZ", true)
    );
    let start = code_writer.output().len();
    assert_eq!(
        Err(TranslateError::Syntax("mul".to_string())),
        code_writer.write_arithmetic("mul")
    );
    assert_eq!(start, code_writer.output().len());
}

#[test]
fn comparisons_take_their_labels_from_the_counter() {
    let (mut code_writer, _) = get_code_writer();
    code_writer.increment_uniq_index().unwrap();
    code_writer.increment_uniq_index().unwrap();
    assert_eq!(2, code_writer.uniq_index());
    let start = code_writer.output().len();
    code_writer.write_arithmetic("eq").unwrap();
    let first = written_after(&code_writer, start);
    code_writer.increment_uniq_index().unwrap();
    let start = code_writer.output().len();
    code_writer.write_arithmetic("eq").unwrap();
    let second = written_after(&code_writer, start);
    assert!(first.contains("@TRUE2\n") && first.contains("(TRUE2)\n"));
    assert!(first.contains("@PUSH2\n") && first.contains("(PUSH2)\n"));
    assert!(second.contains("@TRUE3\n") && second.contains("(TRUE3)\n"));
    assert!(second.contains("@PUSH3\n") && second.contains("(PUSH3)\n"));
    assert!(!second.contains("TRUE2") && !second.contains("PUSH2"));
}

#[test]
fn counter_stops_at_its_last_value() {
    let (mut code_writer, _) = get_code_writer();
    for _ in 0..65535 {
        code_writer.increment_uniq_index().unwrap();
    }
    assert_eq!(65535, code_writer.uniq_index());
    assert_eq!(
        Err(TranslateError::InternalInvariant),
        code_writer.increment_uniq_index()
    );
    assert_eq!(65535, code_writer.uniq_index());
}

#[test]
fn call_text_matches_its_template() {
    let (mut code_writer, _) = get_code_writer();
    for _ in 0..7 {
        code_writer.increment_uniq_index().unwrap();
    }
    let seg = |symbol: &str| format!("\n@{}\nD=M\n{}\n", symbol, PUSH_TEXT);
    let expect = format!(
        "
// call function {}
// push returnAddress
@{}
D=A
{}

{}
{}
{}
{}

// ARG=SP-5-nArgs
@5
D=A
@{}
D=D+A
@SP
D=M-D
@ARG
M=D

// LCL=SP
@SP
D=M
@LCL
M=D

// goto function {}
{}

({})
",
        "Main.fibonacci",
        "Main.fibonacci$ret.7",
        PUSH_TEXT,
        seg("LCL"),
        seg("ARG"),
        seg("THIS"),
        seg("THAT"),
        1,
        "Main.fibonacci",
        "\n@Main.fibonacci\n0;JMP\n",
        "Main.fibonacci$ret.7",
    );
    assert_eq!(expect, code_writer.get_call_code("Main.fibonacci", 1));
    assert_eq!(expect, call_fragment("Main.fibonacci", 1, 7).render());
}

#[test]
fn return_text_matches_its_template() {
    let (code_writer, _) = get_code_writer();
    let expect = format!(
        "
// return
@LCL
D=M
@frame
M=D

@5
D=A
@frame
A=M-D
D=M
@retAddr
M=D

// pop to ARG
{}
@ARG
A=M
M=D
D=A
@SP
M=D+1

@frame
A=M-1
D=M
@THAT
M=D

@2
D=A
@frame
A=M-D
D=M
@THIS
M=D

@3
D=A
@frame
A=M-D
D=M
@ARG
M=D

@4
D=A
@frame
A=M-D
D=M
@LCL
M=D

//goto retAddr
@retAddr
A=M
0;JMP
",
        POP_TEXT,
    );
    assert_eq!(expect, code_writer.get_return_code());
}

#[test]
fn bootstrap_text_matches_its_template() {
    let (code_writer, _) = get_code_writer();
    let expect = format!(
        "
// bootstrap     
@256
D=A
@SP
M=D
{}
",
        code_writer.get_call_code("Sys.init", 0)
    );
    assert_eq!(expect, code_writer.get_bootstrap_code());
}

#[test]
fn branching_text() {
    let (code_writer, _) = get_code_writer();
    assert_eq!("\n@LOOP\n0;JMP\n", code_writer.get_goto_code("LOOP"));
    assert_eq!(
        format!("\n// if-goto LOOP\n{}\n@LOOP\nD;JNE\n", POP_TEXT),
        code_writer.get_if_code("LOOP")
    );
}

#[test]
fn function_pushes_one_zero_for_each_local() {
    let (code_writer, _) = get_code_writer();
    let init = format!("\n@0\nD=A\n{}\n", PUSH_TEXT);
    assert_eq!("\n(f)\n", code_writer.get_function_code("f", 0));
    assert_eq!(
        format!("\n(f)\n{}{}{}", init, init, init),
        code_writer.get_function_code("f", 3)
    );
    assert_eq!(init, zero_push_fragment().render());
    let entry = vec![Line::Blank, Line::Label(Symbol::Name("f".to_string()))];
    assert_eq!(entry, function_fragment("f", 0).lines);
    let mut lines = entry.clone();
    for _ in 0..3 {
        lines.extend(zero_push_fragment().lines);
    }
    assert_eq!(lines, function_fragment("f", 3).lines);
    assert_eq!(
        vec![
            Line::Blank,
            Line::Address(Symbol::Number(0)),
            Line::Compute(Dest::D, Comp::A, Jump::Never),
            Line::Blank,
            Line::Comment(" push".to_string()),
            Line::Address(Symbol::Pointer(Pointer::Sp)),
            Line::Compute(Dest::A, Comp::M, Jump::Never),
            Line::Compute(Dest::M, Comp::D, Jump::Never),
            Line::Address(Symbol::Pointer(Pointer::Sp)),
            Line::Compute(Dest::M, Comp::MPlusOne, Jump::Never),
            Line::Blank,
        ],
        zero_push_fragment().lines
    );
}

#[test]
fn static_symbols_are_scoped_by_the_source_unit() {
    let (mut code_writer, _) = get_code_writer();
    code_writer.set_filename("First").unwrap();
    let first = code_writer
        .get_segment_code(CommandType::Push, "static", 0)
        .unwrap();
    code_writer.set_filename("Second").unwrap();
    let second = code_writer
        .get_segment_code(CommandType::Push, "static", 0)
        .unwrap();
    assert!(first.contains("@First.0\n"));
    assert!(second.contains("@Second.0\n"));
    assert_ne!(first, second);
    assert_eq!("First.0", Symbol::Static("First".to_string(), 0).text());
    assert_eq!("Second.0", Symbol::Static("Second".to_string(), 0).text());
}

#[test]
fn end_label_is_declared_once() {
    let (mut code_writer, _) = get_code_writer();
    assert_eq!("(END)\n@END\n0;JMP\n", code_writer.get_infinity_loop_code());
    code_writer.write_label("LOOP").unwrap();
    assert!(!code_writer.has_end_label());
    code_writer.write_label("END").unwrap();
    assert!(code_writer.has_end_label());
    assert_eq!("\n@END\n0;JMP\n", code_writer.get_infinity_loop_code());
    let before = written(&code_writer);
    let all = String::from_utf8(code_writer.close().unwrap()).unwrap();
    assert_eq!(format!("{}@END\n0;JMP\n", before), all);
    assert_eq!(1, all.matches("(END)").count());
}

#[test]
fn close_declares_the_end_label_where_the_program_did_not() {
    let (code_writer, _) = get_code_writer();
    let before = written(&code_writer);
    let all = String::from_utf8(code_writer.close().unwrap()).unwrap();
    assert_eq!(format!("{}(END)\n@END\n0;JMP\n", before), all);
}

#[test]
fn commands_are_written_as_their_parts_are() {
    let commands = vec![
        Command::Arithmetic(Operation::Lt),
        Command::Push(Segment::Constant, 3),
        Command::Pop(Segment::Local, 1),
        Command::Label("A".to_string()),
        Command::Goto("A".to_string()),
        Command::IfGoto("A".to_string()),
        Command::Function("f".to_string(), 2),
        Command::Call("f".to_string(), 2),
        Command::Return,
    ];
    let (mut by_command, _) = get_code_writer();
    for command in &commands {
        by_command.write_command(command).unwrap();
    }
    let (mut by_part, _) = get_code_writer();
    by_part.write_arithmetic("lt").unwrap();
    by_part
        .write_push_pop(CommandType::Push, "constant", 3)
        .unwrap();
    by_part.write_push_pop(CommandType::Pop, "local", 1).unwrap();
    by_part.write_label("A").unwrap();
    by_part.write_goto("A").unwrap();
    by_part.write_if("A").unwrap();
    by_part.write_function("f", 2).unwrap();
    by_part.write_call("f", 2).unwrap();
    by_part.write_return().unwrap();
    assert_eq!(written(&by_part), written(&by_command));
    let start = by_command.output().len();
    assert_eq!(
        Err(TranslateError::UnsupportedSegment("constant".to_string(), 0)),
        by_command.write_command(&Command::Pop(Segment::Constant, 0))
    );
    assert_eq!(start, by_command.output().len());
}

#[test]
fn lines_have_the_text_of_the_target_syntax() {
    assert_eq!("", Line::Blank.text());
    assert_eq!("// note", Line::Comment(" note".to_string()).text());
    assert_eq!("@123", Line::Address(Symbol::Number(123)).text());
    assert_eq!("@0", Line::Address(Symbol::Number(0)).text());
    assert_eq!("@65535", Line::Address(Symbol::Number(65535)).text());
    assert_eq!("@frame", Line::Address(Symbol::Frame).text());
    assert_eq!("@retAddr", Line::Address(Symbol::ReturnTarget).text());
    assert_eq!("(END)", Line::Label(Symbol::End).text());
    assert_eq!("(f$ret.10)", Line::Label(Symbol::ReturnAddress("f".to_string(), 10)).text());
    assert_eq!("(TRUE4)", Line::Label(Symbol::True(4)).text());
    assert_eq!("@PUSH4", Line::Address(Symbol::Push(4)).text());
    assert_eq!("D;JGT", Line::Compute(Dest::Nowhere, Comp::D, Jump::IfPositive).text());
    assert_eq!("M=D+1", Line::Compute(Dest::M, Comp::DPlusOne, Jump::Never).text());
    assert_eq!("A=M-D", Line::Compute(Dest::A, Comp::MMinusD, Jump::Never).text());
    assert_eq!("D=D+A", Line::Compute(Dest::D, Comp::DPlusA, Jump::Never).text());
    let mut fragment = Fragment::new();
    fragment.number(1);
    fragment.assign(Dest::D, Comp::A);
    assert_eq!("@1\nD=A\n", fragment.render());
    assert_eq!("@1\nD=A", fragment.join());
    assert_eq!("", Fragment::new().render());
    assert_eq!("", Fragment::new().join());
}

#[test]
fn errors_have_a_message() {
    assert_eq!(
        "No such file or directory (os error 2)",
        TranslateError::SourceRead("No such file or directory (os error 2)".to_string()).message()
    );
    assert_eq!(
        "syntax error: push local",
        TranslateError::Syntax("push local".to_string()).message()
    );
    assert_eq!(
        "unsupported segment: pointer 2",
        TranslateError::UnsupportedSegment("pointer".to_string(), 2).message()
    );
    assert_eq!(
        "internal invariant violated",
        TranslateError::InternalInvariant.message()
    );
    assert_eq!(
        "unsupported segment: constant 3 in line: pop constant 3",
        TranslateError::UnsupportedCommand("pop constant 3".to_string(), "constant".to_string(), 3)
            .message()
    );
    assert_eq!(
        "no number is left for the command: add",
        TranslateError::CounterExhausted("add".to_string()).message()
    );
    assert_eq!(
        TranslateError::UnsupportedCommand("pop temp 9".to_string(), "temp".to_string(), 9),
        TranslateError::UnsupportedSegment("temp".to_string(), 9).at_line("pop temp 9")
    );
    assert_eq!(
        TranslateError::Syntax("x".to_string()),
        TranslateError::Syntax("x".to_string()).at_line("y")
    );
}

#[test]
fn arithmetic_text_is_the_text_of_its_lines() {
    for (name, op) in [
        ("add", Operation::Add),
        ("sub", Operation::Sub),
        ("neg", Operation::Neg),
        ("eq", Operation::Eq),
        ("gt", Operation::Gt),
        ("lt", Operation::Lt),
        ("and", Operation::And),
        ("or", Operation::Or),
        ("not", Operation::Not),
    ] {
        let (mut code_writer, _) = get_code_writer();
        code_writer.increment_uniq_index().unwrap();
        let start = code_writer.output().len();
        code_writer.write_arithmetic(name).unwrap();
        assert_eq!(
            arithmetic_fragment(op, VariableRegister::R13, 1).render(),
            written_after(&code_writer, start),
            "{}",
            name
        );
    }
    assert_eq!(
        vec![
            Line::Blank,
            Line::IndentedAddress(Symbol::Variable(VariableRegister::R14)),
            Line::IndentedComment(" or".to_string()),
            Line::Compute(Dest::D, Comp::DOrM, Jump::Never),
            Line::Indentation,
        ],
        operation_fragment(Operation::Or, VariableRegister::R14, 0).lines
    );
    assert_eq!("        ", Line::Indentation.text());
    assert_eq!(
        "        @R15",
        Line::IndentedAddress(Symbol::Variable(VariableRegister::R15)).text()
    );
    assert_eq!("        // x", Line::IndentedComment(" x".to_string()).text());
}

#[test]
fn written_fragment_has_no_empty_line_at_its_start() {
    assert_eq!(
        vec![
            Line::Address(Symbol::Name("A".to_string())),
            Line::Compute(Dest::Nowhere, Comp::Zero, Jump::Always),
        ],
        goto_fragment("A").written().lines
    );
    assert_eq!(5, pop_fragment().written().lines.len());
    assert_eq!(
        pop_fragment().written().lines,
        pop_fragment().written().written().lines
    );
    assert_eq!(Fragment::new(), Fragment::new().written());
    let (mut code_writer, _) = get_code_writer();
    let start = code_writer.output().len();
    code_writer.write_goto("A").unwrap();
    assert_eq!(
        goto_fragment("A").written().render(),
        written_after(&code_writer, start)
    );
}
