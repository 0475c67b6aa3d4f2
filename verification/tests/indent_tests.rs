use vm_translator::arithmetic::ArithmeticCommandHelper;
use vm_translator::assembly::VariableRegister;
use vm_translator::code_writer::CodeWriter;
use vm_translator::command::Operation;
use vm_translator::parser::CommandType;

/// Whether some line of `text` after the first is not empty and begins with
/// a character that is neither a space nor a tab, and `text` does not begin
/// with a carriage return.
fn is_flush(text: &str) -> bool {
    let chars: Vec<char> = text.chars().collect();
    let unindented = (1..chars.len())
        .any(|i| chars[i - 1] == '\n' && chars[i] != ' ' && chars[i] != '\t' && chars[i] != '\n');
    unindented && chars[0] != '\r'
}

fn without_leading_break(text: &str) -> &str {
    text.strip_prefix('\n').unwrap_or(text)
}

/// All texts of up to `length` characters over `alphabet`.
fn texts_over(alphabet: &[char], length: usize) -> Vec<String> {
    let mut all = vec![String::new()];
    let mut last = vec![String::new()];
    for _ in 0..length {
        let mut next = Vec::new();
        for text in &last {
            for c in alphabet {
                let mut longer = text.clone();
                longer.push(*c);
                next.push(longer);
            }
        }
        all.extend(next.iter().cloned());
        last = next;
    }
    all
}

#[test]
fn flush_text_loses_nothing_but_a_line_break_at_its_start() {
    let mut flush = 0;
    for text in texts_over(&['\n', ' ', '\t', 'a', '\r', '\u{e9}'], 6) {
        if is_flush(&text) {
            flush += 1;
            let expect = without_leading_break(&text);
            assert_eq!(expect, unindent::unindent(&text), "{:?}", text);
            assert_eq!(
                expect.as_bytes(),
                unindent::unindent_bytes(text.as_bytes()),
                "{:?}",
                text
            );
        }
    }
    assert!(flush > 10000);
}

#[test]
fn text_that_is_not_flush_may_lose_more() {
    assert!(!is_flush("\n  a\n   b\n"));
    assert_eq!("a\n b\n", unindent::unindent("\n  a\n   b\n"));
    assert!(!is_flush("\r\nb"));
    assert!(!is_flush("a b"));
    assert!(!is_flush(""));
}

#[test]
fn every_piece_of_written_code_is_flush() {
    let writer = CodeWriter::new("Unit");
    let mut pieces = vec![
        writer.get_bootstrap_code(),
        writer.get_push_code(),
        writer.get_pop_code(),
        writer.get_goto_code("A"),
        writer.get_goto_code(" A\n B"),
        writer.get_if_code("A"),
        writer.get_function_code("f", 0),
        writer.get_function_code("f", 2),
        writer.get_call_code("f", 2),
        writer.get_return_code(),
        writer.get_infinity_loop_code(),
        writer.get_arithmetic_code("", true),
        writer.get_arithmetic_code("\n  x", false),
    ];
    for segment in [
        "local", "argument", "this", "that", "temp", "constant", "pointer", "static",
    ] {
        for command in [CommandType::Push, CommandType::Pop] {
            if let Ok(code) = writer.get_segment_code(command, segment, 1) {
                pieces.push(code);
            }
        }
    }
    for op in operations() {
        pieces.push(ArithmeticCommandHelper::get_template(
            op,
            VariableRegister::R13,
            3,
        ));
    }
    assert_eq!(37, pieces.len());
    for piece in pieces {
        assert!(is_flush(&piece), "{:?}", piece);
        assert_eq!(
            without_leading_break(&piece),
            unindent::unindent(&piece),
            "{:?}",
            piece
        );
    }
}

fn operations() -> Vec<Operation> {
    vec![
        Operation::Add,
        Operation::Sub,
        Operation::Neg,
        Operation::Eq,
        Operation::Gt,
        Operation::Lt,
        Operation::And,
        Operation::Or,
        Operation::Not,
    ]
}
