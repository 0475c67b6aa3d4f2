//! The commands of the source language.

use vstd::prelude::*;
use vstd::string::*;
use crate::error::ErrorView;
use crate::text::{is_blank, parse_number, same_text, trim, words};

verus! {

/// The kinds of command.
#[derive(Clone, Copy, Debug, PartialEq, Eq)]
pub enum CommandType {
    Arithmetic,
    Push,
    Pop,
    Label,
    Goto,
    If,
    Function,
    Return,
    Call,
}

/// The arithmetic, comparison and logical operations.
#[derive(Clone, Copy, Debug, PartialEq, Eq)]
pub enum Operation {
    Add,
    Sub,
    Neg,
    Eq,
    Gt,
    Lt,
    And,
    Or,
    Not,
}

/// The memory segments that `push` and `pop` address.
#[derive(Clone, Copy, Debug, PartialEq, Eq)]
pub enum Segment {
    Local,
    Argument,
    This,
    That,
    Temp,
    Constant,
    Pointer,
    Static,
}

/// The name of an operation in the source language.
pub open spec fn operation_name(op: Operation) -> Seq<char> {
    match op {
        Operation::Add => "add"@,
        Operation::Sub => "sub"@,
        Operation::Neg => "neg"@,
        Operation::Eq => "eq"@,
        Operation::Gt => "gt"@,
        Operation::Lt => "lt"@,
        Operation::And => "and"@,
        Operation::Or => "or"@,
        Operation::Not => "not"@,
    }
}

/// The operation that `name` names, if any.
pub open spec fn operation_of(name: Seq<char>) -> Option<Operation> {
    if name == "add"@ {
        Some(Operation::Add)
    } else if name == "sub"@ {
        Some(Operation::Sub)
    } else if name == "neg"@ {
        Some(Operation::Neg)
    } else if name == "eq"@ {
        Some(Operation::Eq)
    } else if name == "gt"@ {
        Some(Operation::Gt)
    } else if name == "lt"@ {
        Some(Operation::Lt)
    } else if name == "and"@ {
        Some(Operation::And)
    } else if name == "or"@ {
        Some(Operation::Or)
    } else if name == "not"@ {
        Some(Operation::Not)
    } else {
        None
    }
}

/// Whether the operation takes one operand rather than two.
pub open spec fn is_unary(op: Operation) -> bool {
    op is Neg || op is Not
}

/// The name of a segment in the source language.
pub open spec fn segment_name(segment: Segment) -> Seq<char> {
    match segment {
        Segment::Local => "local"@,
        Segment::Argument => "argument"@,
        Segment::This => "this"@,
        Segment::That => "that"@,
        Segment::Temp => "temp"@,
        Segment::Constant => "constant"@,
        Segment::Pointer => "pointer"@,
        Segment::Static => "static"@,
    }
}

/// The segment that `name` names, if any.
pub open spec fn segment_of(name: Seq<char>) -> Option<Segment> {
    if name == "local"@ {
        Some(Segment::Local)
    } else if name == "argument"@ {
        Some(Segment::Argument)
    } else if name == "this"@ {
        Some(Segment::This)
    } else if name == "that"@ {
        Some(Segment::That)
    } else if name == "temp"@ {
        Some(Segment::Temp)
    } else if name == "constant"@ {
        Some(Segment::Constant)
    } else if name == "pointer"@ {
        Some(Segment::Pointer)
    } else if name == "static"@ {
        Some(Segment::Static)
    } else {
        None
    }
}

/// One command of the source language.
#[derive(Clone, Debug, PartialEq, Eq)]
pub enum Command {
    Arithmetic(Operation),
    Push(Segment, u16),
    Pop(Segment, u16),
    Label(String),
    Goto(String),
    IfGoto(String),
    Function(String, u16),
    Call(String, u16),
    Return,
}

/// The mathematical value of a [`Command`].
pub enum CommandView {
    Arithmetic(Operation),
    Push(Segment, u16),
    Pop(Segment, u16),
    Label(Seq<char>),
    Goto(Seq<char>),
    IfGoto(Seq<char>),
    Function(Seq<char>, u16),
    Call(Seq<char>, u16),
    Return,
}

impl View for Command {
    type V = CommandView;

    open spec fn view(&self) -> CommandView {
        match self {
            Command::Arithmetic(op) => CommandView::Arithmetic(*op),
            Command::Push(segment, index) => CommandView::Push(*segment, *index),
            Command::Pop(segment, index) => CommandView::Pop(*segment, *index),
            Command::Label(name) => CommandView::Label(name@),
            Command::Goto(name) => CommandView::Goto(name@),
            Command::IfGoto(name) => CommandView::IfGoto(name@),
            Command::Function(name, n_vars) => CommandView::Function(name@, *n_vars),
            Command::Call(name, n_args) => CommandView::Call(name@, *n_args),
            Command::Return => CommandView::Return,
        }
    }
}

/// The token that starts a comment.
pub open spec fn comment_token() -> Seq<char> {
    "//"@
}

/// Whether a line of source text holds a command: it is not blank, and what
/// is left of it without the white space around it does not start a comment.
pub open spec fn is_command_line(line: Seq<char>) -> bool {
    !is_blank(line) && !comment_token().is_prefix_of(trim(line))
}

/// Whether a line begins with the name of an operation.
pub open spec fn has_operation_prefix(line: Seq<char>) -> bool {
    ||| "add"@.is_prefix_of(line)
    ||| "sub"@.is_prefix_of(line)
    ||| "neg"@.is_prefix_of(line)
    ||| "eq"@.is_prefix_of(line)
    ||| "gt"@.is_prefix_of(line)
    ||| "lt"@.is_prefix_of(line)
    ||| "and"@.is_prefix_of(line)
    ||| "or"@.is_prefix_of(line)
    ||| "not"@.is_prefix_of(line)
}

/// The kind of command that a line begins with the keyword of, if any. The
/// names of the operations are looked for first, then `push` and `pop`, then
/// `label`, `goto` and `if-goto`, then `function`, `call` and `return`.
pub open spec fn keyword_kind(line: Seq<char>) -> Option<CommandType> {
    if has_operation_prefix(line) {
        Some(CommandType::Arithmetic)
    } else if "push"@.is_prefix_of(line) {
        Some(CommandType::Push)
    } else if "pop"@.is_prefix_of(line) {
        Some(CommandType::Pop)
    } else if "label"@.is_prefix_of(line) {
        Some(CommandType::Label)
    } else if "goto"@.is_prefix_of(line) {
        Some(CommandType::Goto)
    } else if "if-goto"@.is_prefix_of(line) {
        Some(CommandType::If)
    } else if "function"@.is_prefix_of(line) {
        Some(CommandType::Function)
    } else if "call"@.is_prefix_of(line) {
        Some(CommandType::Call)
    } else if "return"@.is_prefix_of(line) {
        Some(CommandType::Return)
    } else {
        None
    }
}

/// The number of operands that a command of the given kind takes.
pub open spec fn arity(kind: CommandType) -> nat {
    match kind {
        CommandType::Arithmetic => 0,
        CommandType::Return => 0,
        CommandType::Label => 1,
        CommandType::Goto => 1,
        CommandType::If => 1,
        _ => 2,
    }
}

/// Whether the words of a line are as many as a command of the given kind
/// needs: the keyword and the operands, and after them nothing or a comment.
pub open spec fn has_arity(list: Seq<Seq<char>>, kind: CommandType) -> bool {
    let n = arity(kind) + 1;
    list.len() >= n && (list.len() > n ==> comment_token().is_prefix_of(list[n as int]))
}

/// The first operand of the command on a line: for an operation its name,
/// for `return` none, for the others the word after the keyword. A line
/// without a keyword or without that word is a syntax error; to ask for the
/// operand of a `return` breaks the classifier's rules.
pub open spec fn first_operand(line: Seq<char>) -> Result<Seq<char>, ErrorView> {
    match keyword_kind(line) {
        None => Err(ErrorView::Syntax(line)),
        Some(CommandType::Return) => Err(ErrorView::InternalInvariant),
        Some(CommandType::Arithmetic) => if words(line).len() > 0 {
            Ok(words(line)[0])
        } else {
            Err(ErrorView::Syntax(line))
        },
        Some(_) => if words(line).len() > 1 {
            Ok(words(line)[1])
        } else {
            Err(ErrorView::Syntax(line))
        },
    }
}

/// The second operand of the command on a line: the number that the third
/// word denotes. A line without a keyword, without that word, or with a word
/// there that is no 16-bit number is a syntax error; to ask for it of a
/// command that takes no number breaks the classifier's rules.
pub open spec fn second_operand(line: Seq<char>) -> Result<u16, ErrorView> {
    match keyword_kind(line) {
        None => Err(ErrorView::Syntax(line)),
        Some(kind) => if arity(kind) != 2 {
            Err(ErrorView::InternalInvariant)
        } else if words(line).len() > 2 && parse_number(words(line)[2]) is Some {
            Ok(parse_number(words(line)[2]).unwrap())
        } else {
            Err(ErrorView::Syntax(line))
        },
    }
}

/// The command that a line holds, or the error that the line is refused
/// with. The line gives a syntax error where it begins with no keyword, where
/// it has fewer operands than the command takes or more (a comment may
/// follow them), where the word of an operation is not exactly its name, or
/// where an index or count is no 16-bit number; and an unsupported command
/// where the segment of a `push` or `pop` is unknown.
pub open spec fn classified(line: Seq<char>) -> Result<CommandView, ErrorView> {
    let list = words(line);
    match keyword_kind(line) {
        None => Err(ErrorView::Syntax(line)),
        Some(kind) => if !has_arity(list, kind) {
            Err(ErrorView::Syntax(line))
        } else {
            match kind {
                CommandType::Arithmetic => match operation_of(list[0]) {
                    Some(op) => Ok(CommandView::Arithmetic(op)),
                    None => Err(ErrorView::Syntax(line)),
                },
                CommandType::Push => match parse_number(list[2]) {
                    None => Err(ErrorView::Syntax(line)),
                    Some(index) => match segment_of(list[1]) {
                        Some(segment) => Ok(CommandView::Push(segment, index)),
                        None => Err(ErrorView::UnsupportedCommand(line, list[1], index)),
                    },
                },
                CommandType::Pop => match parse_number(list[2]) {
                    None => Err(ErrorView::Syntax(line)),
                    Some(index) => match segment_of(list[1]) {
                        Some(segment) => Ok(CommandView::Pop(segment, index)),
                        None => Err(ErrorView::UnsupportedCommand(line, list[1], index)),
                    },
                },
                CommandType::Label => Ok(CommandView::Label(list[1])),
                CommandType::Goto => Ok(CommandView::Goto(list[1])),
                CommandType::If => Ok(CommandView::IfGoto(list[1])),
                CommandType::Function => match parse_number(list[2]) {
                    None => Err(ErrorView::Syntax(line)),
                    Some(n_vars) => Ok(CommandView::Function(list[1], n_vars)),
                },
                CommandType::Call => match parse_number(list[2]) {
                    None => Err(ErrorView::Syntax(line)),
                    Some(n_args) => Ok(CommandView::Call(list[1], n_args)),
                },
                CommandType::Return => Ok(CommandView::Return),
            }
        },
    }
}

/// Every operation is found again by its name.
pub proof fn lemma_operation_name(op: Operation)
    ensures
        operation_of(operation_name(op)) == Some(op),
{
    reveal_strlit("add");
    reveal_strlit("sub");
    reveal_strlit("neg");
    reveal_strlit("eq");
    reveal_strlit("gt");
    reveal_strlit("lt");
    reveal_strlit("and");
    reveal_strlit("or");
    reveal_strlit("not");
    assert("add"@[1] == 'd' && "and"@[1] == 'n' && "neg"@[1] == 'e' && "not"@[1] == 'o');
    assert("add"@[0] == 'a' && "sub"@[0] == 's' && "neg"@[0] == 'n' && "and"@[0] == 'a');
    assert("eq"@[0] == 'e' && "gt"@[0] == 'g' && "lt"@[0] == 'l' && "or"@[0] == 'o');
    assert("add"@.len() == 3 && "sub"@.len() == 3 && "neg"@.len() == 3 && "and"@.len() == 3
        && "not"@.len() == 3);
    assert("eq"@.len() == 2 && "gt"@.len() == 2 && "lt"@.len() == 2 && "or"@.len() == 2);
}

/// Every segment is found again by its name.
pub proof fn lemma_segment_name(segment: Segment)
    ensures
        segment_of(segment_name(segment)) == Some(segment),
{
    reveal_strlit("local");
    reveal_strlit("argument");
    reveal_strlit("this");
    reveal_strlit("that");
    reveal_strlit("temp");
    reveal_strlit("constant");
    reveal_strlit("pointer");
    reveal_strlit("static");
    assert("local"@.len() == 5 && "argument"@.len() == 8 && "this"@.len() == 4 && "that"@.len()
        == 4);
    assert("temp"@.len() == 4 && "constant"@.len() == 8 && "pointer"@.len() == 7 && "static"@.len()
        == 6);
    assert("argument"@[0] == 'a' && "constant"@[0] == 'c');
    assert("this"@[2] == 'i' && "that"@[2] == 'a' && "temp"@[2] == 'm');
}

impl Operation {
    /// The operation that `name` names, if any.
    pub fn parse(name: &str) -> (r: Option<Operation>)
        ensures
            r == operation_of(name@),
    {
        if same_text(name, "add") {
            Some(Operation::Add)
        } else if same_text(name, "sub") {
            Some(Operation::Sub)
        } else if same_text(name, "neg") {
            Some(Operation::Neg)
        } else if same_text(name, "eq") {
            Some(Operation::Eq)
        } else if same_text(name, "gt") {
            Some(Operation::Gt)
        } else if same_text(name, "lt") {
            Some(Operation::Lt)
        } else if same_text(name, "and") {
            Some(Operation::And)
        } else if same_text(name, "or") {
            Some(Operation::Or)
        } else if same_text(name, "not") {
            Some(Operation::Not)
        } else {
            None
        }
    }

    /// The name of the operation in the source language.
    pub fn name(self) -> (s: &'static str)
        ensures
            s@ == operation_name(self),
    {
        match self {
            Operation::Add => "add",
            Operation::Sub => "sub",
            Operation::Neg => "neg",
            Operation::Eq => "eq",
            Operation::Gt => "gt",
            Operation::Lt => "lt",
            Operation::And => "and",
            Operation::Or => "or",
            Operation::Not => "not",
        }
    }

    /// Whether the operation takes one operand rather than two.
    pub fn is_unary(self) -> (r: bool)
        ensures
            r == is_unary(self),
    {
        match self {
            Operation::Neg => true,
            Operation::Not => true,
            _ => false,
        }
    }
}

impl Segment {
    /// The segment that `name` names, if any.
    pub fn parse(name: &str) -> (r: Option<Segment>)
        ensures
            r == segment_of(name@),
    {
        if same_text(name, "local") {
            Some(Segment::Local)
        } else if same_text(name, "argument") {
            Some(Segment::Argument)
        } else if same_text(name, "this") {
            Some(Segment::This)
        } else if same_text(name, "that") {
            Some(Segment::That)
        } else if same_text(name, "temp") {
            Some(Segment::Temp)
        } else if same_text(name, "constant") {
            Some(Segment::Constant)
        } else if same_text(name, "pointer") {
            Some(Segment::Pointer)
        } else if same_text(name, "static") {
            Some(Segment::Static)
        } else {
            None
        }
    }

    /// The name of the segment in the source language.
    pub fn name(self) -> (s: &'static str)
        ensures
            s@ == segment_name(self),
    {
        match self {
            Segment::Local => "local",
            Segment::Argument => "argument",
            Segment::This => "this",
            Segment::That => "that",
            Segment::Temp => "temp",
            Segment::Constant => "constant",
            Segment::Pointer => "pointer",
            Segment::Static => "static",
        }
    }
}

} // verus!
