use vm_translator::command::{Command, Operation, Segment};
use vm_translator::error::TranslateError;
use vm_translator::parser::{classify, command_kind, CommandType, Parser};
use vm_translator::text::{
    char_is_space, decimal_string, line_is_blank, parse_u16, same_text, split_words, starts_with,
    to_chars, trimmed,
};
use vm_translator::translator::parse_arg;

fn lines_of(text: &str) -> Vec<String> {
    text.lines().map(String::from).collect()
}

#[test]
fn test_constructor() {
    let mut parser = Parser::new(lines_of(""));
    assert_eq!(parser.has_more_lines(), Ok(false));
    assert!(!parser.has_command());
}

#[test]
fn test_has_more_lines() -> Result<(), TranslateError> {
    let file_content = r#"
        // push
        push constant 7
        push constant 8
        add
       "#;
    let mut parser = Parser::new(lines_of(file_content));

    parser.advance()?;
    assert_eq!(parser.has_more_lines()?, true);

    parser.advance()?;
    assert_eq!(parser.has_more_lines()?, true);

    parser.advance()?;
    assert_eq!(parser.has_more_lines()?, true);

    parser.advance()?;
    assert_eq!(parser.has_more_lines()?, false);

    Ok(())
}

#[test]
fn test_command_type() -> Result<(), TranslateError> {
    let file_content = r#"
        // push
        push constant 7
        push constant 8
        add
        push constant 7
        push constant 8
        pop this 0
        pop this 5
       "#;
    let mut parser = Parser::new(lines_of(file_content));

    parser.advance()?;
    assert_eq!(parser.command_type()?.unwrap(), CommandType::Push);
    parser.advance()?;
    assert_eq!(parser.command_type()?.unwrap(), CommandType::Push);

    parser.advance()?;
    assert_eq!(parser.command_type()?.unwrap(), CommandType::Arithmetic);

    parser.advance()?;
    assert_eq!(parser.command_type()?.unwrap(), CommandType::Push);

    parser.advance()?;
    assert_eq!(parser.command_type()?.unwrap(), CommandType::Push);

    parser.advance()?;
    assert_eq!(parser.command_type()?.unwrap(), CommandType::Pop);

    parser.advance()?;
    assert_eq!(parser.command_type()?.unwrap(), CommandType::Pop);

    Ok(())
}

#[test]
fn test_arg1() -> Result<(), TranslateError> {
    let file_content = r#"
        // push
        push constant 7
        push constant 8
        add
        push constant 7
        push constant 8
        pop this 0
        pop this 5
       "#;
    let mut parser = Parser::new(lines_of(file_content));

    parser.advance()?;
    assert_eq!(parser.arg1()?, "constant".to_string());
    assert_eq!(parser.arg2()?.unwrap(), "7".parse().unwrap());

    parser.advance()?;
    assert_eq!(parser.arg1()?, "constant".to_string());
    assert_eq!(parser.arg2()?.unwrap(), "8".parse().unwrap());

    parser.advance()?;
    assert_eq!(parser.arg1()?, "add".to_string());

    parser.advance()?;
    assert_eq!(parser.arg1()?, "constant".to_string());
    assert_eq!(parser.arg2()?.unwrap(), "7".parse().unwrap());

    parser.advance()?;
    assert_eq!(parser.arg1()?, "constant".to_string());
    assert_eq!(parser.arg2()?.unwrap(), "8".parse().unwrap());

    parser.advance()?;
    assert_eq!(parser.arg1()?, "this".to_string());
    assert_eq!(parser.arg2()?.unwrap(), "0".parse().unwrap());

    parser.advance()?;
    assert_eq!(parser.arg1()?, "this".to_string());
    assert_eq!(parser.arg2()?.unwrap(), "5".parse().unwrap());

    Ok(())
}

#[test]
fn parse_test() -> Result<(), TranslateError> {
    let expect = "./";
    let args = vec!["".to_string(), "".to_string()];
    assert_eq!(parse_arg(args)?, expect.to_string());

    let expect = "test_vm_files/8/FunctionCalls/FibonacciElement";
    let args = vec!["".to_string(), expect.to_string()];
    assert_eq!(parse_arg(args)?, expect.to_string());

    Ok(())
}

#[test]
fn parse_arg_without_a_path() {
    assert_eq!(Ok("./".to_string()), parse_arg(vec![]));
    assert_eq!(Ok("./".to_string()), parse_arg(vec!["prog".to_string()]));
    assert_eq!(
        Ok("a.vm".to_string()),
        parse_arg(vec!["prog".to_string(), "a.vm".to_string(), "b.vm".to_string()])
    );
}

#[test]
fn advance_passes_over_blank_lines_and_comments() {
    let mut parser = Parser::new(lines_of(
        "\n   \n// note\n\t  // indented note\n  add  \r\n//x\nsub\n\n// end\n",
    ));
    assert_eq!(Ok(true), parser.has_more_lines());
    assert!(!parser.has_command());
    assert_eq!(None, parser.current_line());
    parser.advance().unwrap();
    assert_eq!(Some("add".to_string()), parser.current_line());
    assert_eq!(Ok("add".to_string()), parser.arg1());
    assert_eq!(Ok(true), parser.has_more_lines());
    parser.advance().unwrap();
    assert_eq!(Ok("sub".to_string()), parser.arg1());
    assert_eq!(Ok(true), parser.has_more_lines());
    parser.advance().unwrap();
    assert!(!parser.has_command());
    assert_eq!(Ok(false), parser.has_more_lines());
    assert_eq!(Err(TranslateError::InternalInvariant), parser.command_type());
    assert_eq!(Err(TranslateError::InternalInvariant), parser.arg1());
    assert_eq!(Err(TranslateError::InternalInvariant), parser.arg2());
    assert_eq!(Err(TranslateError::InternalInvariant), parser.command());
}

#[test]
fn advance_at_the_end_keeps_the_current_command() {
    let mut parser = Parser::new(lines_of("neg"));
    parser.advance().unwrap();
    assert_eq!(Ok(false), parser.has_more_lines());
    parser.advance().unwrap();
    assert!(parser.has_command());
    assert_eq!(Ok(Command::Arithmetic(Operation::Neg)), parser.command());
}

#[test]
fn kinds_go_by_the_keyword_at_the_start() {
    for word in ["add", "sub", "neg", "eq", "gt", "lt", "and", "or", "not"] {
        assert_eq!(Some(CommandType::Arithmetic), command_kind(word));
    }
    assert_eq!(Some(CommandType::Arithmetic), command_kind("address 1"));
    assert_eq!(Some(CommandType::Push), command_kind("push local 1"));
    assert_eq!(Some(CommandType::Push), command_kind("pushed"));
    assert_eq!(Some(CommandType::Pop), command_kind("pop local 1"));
    assert_eq!(Some(CommandType::Label), command_kind("label A"));
    assert_eq!(Some(CommandType::Goto), command_kind("goto A"));
    assert_eq!(Some(CommandType::If), command_kind("if-goto A"));
    assert_eq!(Some(CommandType::Function), command_kind("function f 1"));
    assert_eq!(Some(CommandType::Return), command_kind("return"));
    assert_eq!(Some(CommandType::Call), command_kind("call f 1"));
    assert_eq!(None, command_kind("jump A"));
    assert_eq!(None, command_kind(""));
    assert_eq!(None, command_kind(" add"));
    assert_eq!(None, command_kind("Push local 1"));
}

#[test]
fn operands_of_every_kind() {
    let mut parser = Parser::new(lines_of(
        "label LOOP\ngoto LOOP\nif-goto LOOP\nfunction Main.f 3\ncall Main.f 2\nreturn\njump\npush local\npush local x\nlabel",
    ));
    parser.advance().unwrap();
    assert_eq!(Ok("LOOP".to_string()), parser.arg1());
    assert_eq!(Err(TranslateError::InternalInvariant), parser.arg2());
    parser.advance().unwrap();
    assert_eq!(Ok("LOOP".to_string()), parser.arg1());
    parser.advance().unwrap();
    assert_eq!(Ok("LOOP".to_string()), parser.arg1());
    parser.advance().unwrap();
    assert_eq!(Ok("Main.f".to_string()), parser.arg1());
    assert_eq!(Ok(Some(3)), parser.arg2());
    parser.advance().unwrap();
    assert_eq!(Ok("Main.f".to_string()), parser.arg1());
    assert_eq!(Ok(Some(2)), parser.arg2());
    parser.advance().unwrap();
    assert_eq!(Ok(Some(CommandType::Return)), parser.command_type());
    assert_eq!(Err(TranslateError::InternalInvariant), parser.arg1());
    assert_eq!(Err(TranslateError::InternalInvariant), parser.arg2());
    parser.advance().unwrap();
    assert_eq!(Ok(None), parser.command_type());
    assert_eq!(Err(TranslateError::Syntax("jump".to_string())), parser.arg1());
    assert_eq!(Err(TranslateError::Syntax("jump".to_string())), parser.arg2());
    parser.advance().unwrap();
    assert_eq!(Ok("local".to_string()), parser.arg1());
    assert_eq!(
        Err(TranslateError::Syntax("push local".to_string())),
        parser.arg2()
    );
    parser.advance().unwrap();
    assert_eq!(
        Err(TranslateError::Syntax("push local x".to_string())),
        parser.arg2()
    );
    parser.advance().unwrap();
    assert_eq!(Err(TranslateError::Syntax("label".to_string())), parser.arg1());
}

#[test]
fn classify_gives_each_command() {
    assert_eq!(Ok(Command::Arithmetic(Operation::Add)), classify("add"));
    assert_eq!(Ok(Command::Arithmetic(Operation::Sub)), classify("sub"));
    assert_eq!(Ok(Command::Arithmetic(Operation::Neg)), classify("neg"));
    assert_eq!(Ok(Command::Arithmetic(Operation::Eq)), classify("eq"));
    assert_eq!(Ok(Command::Arithmetic(Operation::Gt)), classify("gt"));
    assert_eq!(Ok(Command::Arithmetic(Operation::Lt)), classify("lt"));
    assert_eq!(Ok(Command::Arithmetic(Operation::And)), classify("and"));
    assert_eq!(Ok(Command::Arithmetic(Operation::Or)), classify("or"));
    assert_eq!(Ok(Command::Arithmetic(Operation::Not)), classify("not"));
    assert_eq!(
        Ok(Command::Push(Segment::Constant, 7)),
        classify("push constant 7")
    );
    assert_eq!(
        Ok(Command::Push(Segment::Static, 65535)),
        classify("push   static\t65535")
    );
    assert_eq!(Ok(Command::Pop(Segment::Local, 0)), classify("pop local 0"));
    assert_eq!(
        Ok(Command::Pop(Segment::Argument, 2)),
        classify("pop argument +2")
    );
    assert_eq!(Ok(Command::Pop(Segment::This, 1)), classify("pop this 001"));
    assert_eq!(Ok(Command::Pop(Segment::That, 1)), classify("pop that 1"));
    assert_eq!(Ok(Command::Pop(Segment::Temp, 1)), classify("pop temp 1"));
    assert_eq!(
        Ok(Command::Pop(Segment::Pointer, 1)),
        classify("pop pointer 1")
    );
    assert_eq!(Ok(Command::Label("LOOP".to_string())), classify("label LOOP"));
    assert_eq!(Ok(Command::Goto("LOOP".to_string())), classify("goto LOOP"));
    assert_eq!(
        Ok(Command::IfGoto("LOOP".to_string())),
        classify("if-goto LOOP")
    );
    assert_eq!(
        Ok(Command::Function("Main.f".to_string(), 3)),
        classify("function Main.f 3")
    );
    assert_eq!(
        Ok(Command::Call("Main.f".to_string(), 2)),
        classify("call Main.f 2")
    );
    assert_eq!(Ok(Command::Return), classify("return"));
}

#[test]
fn classify_accepts_a_comment_after_the_operands() {
    assert_eq!(
        Ok(Command::Arithmetic(Operation::Lt)),
        classify("lt                     // checks if n<2")
    );
    assert_eq!(
        Ok(Command::Call("Main.fibonacci".to_string(), 1)),
        classify("call Main.fibonacci 1  // computes fib(n-2)")
    );
    assert_eq!(Ok(Command::Return), classify("return //done"));
    assert_eq!(
        Ok(Command::Label("N_LT_2".to_string())),
        classify("label N_LT_2 //")
    );
}

#[test]
fn classify_refuses_malformed_lines() {
    let syntax = |line: &str| Err(TranslateError::Syntax(line.to_string()));
    for line in [
        "jump LOOP",
        "",
        "push",
        "push local",
        "push local x",
        "push local -1",
        "push local 65536",
        "push local 1 2",
        "pop local 1 x // note",
        "add 1",
        "address",
        "add//note",
        "label",
        "label A B",
        "goto",
        "if-goto",
        "function f",
        "function f x",
        "call f",
        "call f 1.5",
        "return 1",
        "push local +",
        "push local 1_0",
    ] {
        assert_eq!(syntax(line), classify(line), "{:?}", line);
    }
    assert_eq!(
        Err(TranslateError::UnsupportedCommand(
            "push heap 3".to_string(),
            "heap".to_string(),
            3
        )),
        classify("push heap 3")
    );
    assert_eq!(
        Err(TranslateError::UnsupportedCommand(
            "pop Local 3 // note".to_string(),
            "Local".to_string(),
            3
        )),
        classify("pop Local 3 // note")
    );
    assert_eq!(
        Err(TranslateError::Syntax("push heap x".to_string())),
        classify("push heap x")
    );
}

#[test]
fn text_helpers() {
    assert!(line_is_blank(""));
    assert!(line_is_blank(" \t\r\n\u{a0}\u{3000}\u{2003}"));
    assert!(!line_is_blank("  x "));
    assert!(!line_is_blank("\u{200b}"));
    assert_eq!("a  b", trimmed(" \t a  b\r\n"));
    assert_eq!("a  b", " \t a  b\r\n".trim());
    assert_eq!("", trimmed("   "));
    assert_eq!("x", trimmed("x"));
    assert!(starts_with("// note", "//"));
    assert!(starts_with("//", "//"));
    assert!(!starts_with("/", "//"));
    assert!(!starts_with("a//", "//"));
    assert!(starts_with("abc", ""));
    assert_eq!(
        vec!["push", "constant", "7"],
        split_words("  push\tconstant \u{2003} 7 ")
    );
    assert_eq!(Vec::<String>::new(), split_words(" \t "));
    assert_eq!(vec!["a"], split_words("a"));
}

#[test]
fn numbers_are_read_and_written_in_decimal() {
    assert_eq!("0", decimal_string(0));
    assert_eq!("9", decimal_string(9));
    assert_eq!("10", decimal_string(10));
    assert_eq!("409", decimal_string(409));
    assert_eq!("65535", decimal_string(65535));
    assert_eq!(Some(0), parse_u16("0"));
    assert_eq!(Some(7), parse_u16("007"));
    assert_eq!(Some(7), parse_u16("+7"));
    assert_eq!(Some(65535), parse_u16("65535"));
    assert_eq!(Some(65535), parse_u16("00000000000065535"));
    assert_eq!(None, parse_u16("65536"));
    assert_eq!(None, parse_u16("99999999999999999999"));
    assert_eq!(None, parse_u16(""));
    assert_eq!(None, parse_u16("+"));
    assert_eq!(None, parse_u16("-1"));
    assert_eq!(None, parse_u16("-0"));
    assert_eq!(None, parse_u16("++1"));
    assert_eq!(None, parse_u16("1+"));
    assert_eq!(None, parse_u16("12a"));
    assert_eq!(None, parse_u16(" 1"));
    assert_eq!(None, parse_u16("\u{661}"));
    for word in ["0", "007", "+7", "65535", "65536", "", "+", "-1", "12a", "1_0", "\u{663}"] {
        assert_eq!(word.parse::<u16>().ok(), parse_u16(word), "{:?}", word);
    }
    for n in [0u16, 1, 9, 10, 99, 100, 12345, 65535] {
        assert_eq!(n.to_string(), decimal_string(n));
        assert_eq!(Some(n), parse_u16(&decimal_string(n)));
    }
}

#[test]
fn white_space_is_what_the_standard_library_takes_for_it() {
    for code in 0..=0x10ffffu32 {
        if let Some(c) = char::from_u32(code) {
            assert_eq!(c.is_whitespace(), char_is_space(c), "{:x}", code);
        }
    }
}

#[test]
fn words_and_trimming_agree_with_the_standard_library() {
    let samples = [
        "",
        " ",
        "push constant 7",
        "  push\tconstant \u{2003} 7 \r",
        "\u{a0}a\u{a0}\u{a0}b\u{3000}",
        "\t// note with  spaces ",
        "x\u{200b}y z",
        "call Main.f 2 // note",
        "\u{85}\u{1680}w\u{2028}\u{2029}\u{202f}\u{205f}",
    ];
    for sample in samples {
        let words: Vec<String> = sample.split_whitespace().map(String::from).collect();
        assert_eq!(words, split_words(sample), "{:?}", sample);
        assert_eq!(sample.trim(), trimmed(sample), "{:?}", sample);
        assert_eq!(
            sample.chars().all(char::is_whitespace),
            line_is_blank(sample),
            "{:?}",
            sample
        );
        assert_eq!(sample.chars().collect::<Vec<char>>(), to_chars(sample));
        for prefix in ["", "//", "push", "p", "call Main.f 2 // note", "x\u{200b}"] {
            assert_eq!(
                sample.starts_with(prefix),
                starts_with(sample, prefix),
                "{:?} {:?}",
                sample,
                prefix
            );
            assert_eq!(sample == prefix, same_text(sample, prefix));
        }
    }
}

#[test]
fn every_number_is_read_back_from_its_decimal_text() {
    for n in 0..=u16::MAX {
        let text = decimal_string(n);
        assert_eq!(n.to_string(), text);
        assert_eq!(Some(n), parse_u16(&text));
    }
}

/// All texts of up to `length` characters over `alphabet`.
fn texts_over(alphabet: &[char], length: usize) -> Vec<String> {
    let mut all = vec![String::new()];
    let mut last = vec![String::new()];
    for _ in 0..length {
        let mut next = Vec::new();
        for text in &last {
            for c in alphabet {
                let mut longer = text.clone();
                longer.push(*c);
                next.push(longer);
            }
        }
        all.extend(next.iter().cloned());
        last = next;
    }
    all
}

#[test]
fn short_texts_are_read_as_numbers_as_the_standard_library_reads_them() {
    for text in texts_over(&['+', '-', '0', '5', '6', '9', ' ', 'x'], 5) {
        assert_eq!(text.parse::<u16>().ok(), parse_u16(&text), "{:?}", text);
    }
    for text in texts_over(&['0', '3', '5', '6', '9'], 6) {
        assert_eq!(text.parse::<u16>().ok(), parse_u16(&text), "{:?}", text);
    }
}

#[test]
fn short_texts_are_split_and_trimmed_as_the_standard_library_does() {
    for text in texts_over(&[' ', '\t', 'a', '/', '\u{a0}', '\r'], 5) {
        let words: Vec<String> = text.split_whitespace().map(String::from).collect();
        assert_eq!(words, split_words(&text), "{:?}", text);
        assert_eq!(text.trim(), trimmed(&text), "{:?}", text);
        assert_eq!(text.starts_with("//"), starts_with(&text, "//"), "{:?}", text);
    }
}
