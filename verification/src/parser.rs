//! The classifier: reads the lines of a source unit one command at a time.

use vstd::prelude::*;
use vstd::string::*;
pub use crate::command::CommandType;
use crate::command::{
    Command, Operation, Segment, arity, classified, first_operand, has_arity, is_command_line,
    keyword_kind, second_operand,
};
use crate::error::{ErrorView, TranslateError};
use crate::text::{
    chars_start_with, line_is_blank, parse_u16, split_words, starts_with, string_views, to_chars,
    trim, trimmed, words,
};

verus! {

/// The state of a classifier, as contracts see it.
pub struct ParserState {
    /// The lines of the source unit.
    pub lines: Seq<Seq<char>>,
    /// The number of lines read so far.
    pub position: nat,
    /// The command that was read last, without the white space around it.
    pub current: Option<Seq<char>>,
}

/// The index of the first line at or after `from` that holds a command, or
/// the number of lines where there is none.
pub open spec fn next_command(lines: Seq<Seq<char>>, from: int) -> int
    decreases lines.len() - from,
{
    if from < 0 || from >= lines.len() {
        lines.len() as int
    } else if is_command_line(lines[from]) {
        from
    } else {
        next_command(lines, from + 1)
    }
}

impl ParserState {
    /// Whether lines are left to read.
    pub open spec fn has_more_lines(self) -> bool {
        self.position < self.lines.len()
    }

    /// The state after reading on to the next command. Blank lines and
    /// comments are passed over. Where no command is left, all lines are read
    /// and there is no current command; where no line at all was left, the
    /// state stays as it is.
    pub open spec fn advanced(self) -> ParserState {
        let i = next_command(self.lines, self.position as int);
        if !self.has_more_lines() {
            self
        } else if i < self.lines.len() {
            ParserState { position: (i + 1) as nat, current: Some(trim(self.lines[i])), ..self }
        } else {
            ParserState { position: self.lines.len(), current: None, ..self }
        }
    }
}

/// The next command is looked for forwards, and within the lines.
pub proof fn lemma_next_command_bounds(lines: Seq<Seq<char>>, from: int)
    requires
        0 <= from,
    ensures
        from <= next_command(lines, from) || next_command(lines, from) == lines.len(),
        next_command(lines, from) <= lines.len(),
    decreases lines.len() - from,
{
    if from < lines.len() && !is_command_line(lines[from]) {
        lemma_next_command_bounds(lines, from + 1);
    }
}

/// The kind of command that `line` begins with the keyword of, if any.
pub fn command_kind(line: &str) -> (kind: Option<CommandType>)
    ensures
        kind == keyword_kind(line@),
{
    let chars = to_chars(line);
    if chars_start_with(&chars, "add") || chars_start_with(&chars, "sub") || chars_start_with(
        &chars,
        "neg",
    ) || chars_start_with(&chars, "eq") || chars_start_with(&chars, "gt") || chars_start_with(
        &chars,
        "lt",
    ) || chars_start_with(&chars, "and") || chars_start_with(&chars, "or") || chars_start_with(
        &chars,
        "not",
    ) {
        Some(CommandType::Arithmetic)
    } else if chars_start_with(&chars, "push") {
        Some(CommandType::Push)
    } else if chars_start_with(&chars, "pop") {
        Some(CommandType::Pop)
    } else if chars_start_with(&chars, "label") {
        Some(CommandType::Label)
    } else if chars_start_with(&chars, "goto") {
        Some(CommandType::Goto)
    } else if chars_start_with(&chars, "if-goto") {
        Some(CommandType::If)
    } else if chars_start_with(&chars, "function") {
        Some(CommandType::Function)
    } else if chars_start_with(&chars, "call") {
        Some(CommandType::Call)
    } else if chars_start_with(&chars, "return") {
        Some(CommandType::Return)
    } else {
        None
    }
}

/// The number of operands that a command of the given kind takes.
pub fn operand_count(kind: CommandType) -> (n: usize)
    ensures
        n == arity(kind),
{
    match kind {
        CommandType::Arithmetic => 0,
        CommandType::Return => 0,
        CommandType::Label => 1,
        CommandType::Goto => 1,
        CommandType::If => 1,
        _ => 2,
    }
}

/// The command that `line` holds, or the error that the line is refused with.
pub fn classify(line: &str) -> (r: Result<Command, TranslateError>)
    ensures
        match classified(line@) {
            Ok(c) => r matches Ok(command) && command@ == c,
            Err(e) => r matches Err(x) && x@ == e,
        },
{
    let kind = match command_kind(line) {
        Some(kind) => kind,
        None => {
            return Err(TranslateError::Syntax(line.to_owned()));
        },
    };
    let list = split_words(line);
    let n = operand_count(kind) + 1;
    assert(forall|k: int| 0 <= k < list@.len() ==> (#[trigger] list@[k])@ == words(line@)[k]) by {
        assert(string_views(list@) == words(line@));
        assert forall|k: int| 0 <= k < list@.len() implies (#[trigger] list@[k])@ == words(
            line@,
        )[k] by {
            assert(string_views(list@)[k] == list@[k]@);
        }
    }
    assert(list@.len() == words(line@).len()) by {
        assert(string_views(list@).len() == list@.len());
    }
    if list.len() < n || (list.len() > n && !starts_with(list[n].as_str(), "//")) {
        return Err(TranslateError::Syntax(line.to_owned()));
    }
    assert(has_arity(words(line@), kind));
    match kind {
        CommandType::Arithmetic => match Operation::parse(list[0].as_str()) {
            Some(op) => Ok(Command::Arithmetic(op)),
            None => Err(TranslateError::Syntax(line.to_owned())),
        },
        CommandType::Push => match parse_u16(list[2].as_str()) {
            None => Err(TranslateError::Syntax(line.to_owned())),
            Some(index) => match Segment::parse(list[1].as_str()) {
                Some(segment) => Ok(Command::Push(segment, index)),
                None => Err(
                    TranslateError::UnsupportedCommand(line.to_owned(), list[1].clone(), index),
                ),
            },
        },
        CommandType::Pop => match parse_u16(list[2].as_str()) {
            None => Err(TranslateError::Syntax(line.to_owned())),
            Some(index) => match Segment::parse(list[1].as_str()) {
                Some(segment) => Ok(Command::Pop(segment, index)),
                None => Err(
                    TranslateError::UnsupportedCommand(line.to_owned(), list[1].clone(), index),
                ),
            },
        },
        CommandType::Label => Ok(Command::Label(list[1].clone())),
        CommandType::Goto => Ok(Command::Goto(list[1].clone())),
        CommandType::If => Ok(Command::IfGoto(list[1].clone())),
        CommandType::Function => match parse_u16(list[2].as_str()) {
            None => Err(TranslateError::Syntax(line.to_owned())),
            Some(n_vars) => Ok(Command::Function(list[1].clone(), n_vars)),
        },
        CommandType::Call => match parse_u16(list[2].as_str()) {
            None => Err(TranslateError::Syntax(line.to_owned())),
            Some(n_args) => Ok(Command::Call(list[1].clone(), n_args)),
        },
        CommandType::Return => Ok(Command::Return),
    }
}

/// Reads the commands of one source unit, line by line.
pub struct Parser {
    vm_code: Vec<String>,
    position: usize,
    current_command: Option<String>,
}

impl View for Parser {
    type V = ParserState;

    closed spec fn view(&self) -> ParserState {
        ParserState {
            lines: string_views(self.vm_code@),
            position: self.position as nat,
            current: match self.current_command {
                Some(line) => Some(line@),
                None => None,
            },
        }
    }
}

impl Parser {
    /// A classifier at the start of the lines `vm_code`, with no current
    /// command.
    pub fn new(vm_code: Vec<String>) -> (parser: Parser)
        ensures
            parser@ == (ParserState { lines: string_views(vm_code@), position: 0, current: None }),
    {
        Parser { vm_code, position: 0, current_command: None }
    }

    /// Whether lines are left to read.
    pub fn has_more_lines(&mut self) -> (r: Result<bool, TranslateError>)
        ensures
            final(self)@ == old(self)@,
            r matches Ok(more) && more == old(self)@.has_more_lines(),
    {
        assert(string_views(self.vm_code@).len() == self.vm_code@.len());
        Ok(self.position < self.vm_code.len())
    }

    /// Reads on to the next command and makes it the current one.
    pub fn advance(&mut self) -> (r: Result<(), TranslateError>)
        ensures
            r is Ok,
            final(self)@ == old(self)@.advanced(),
    {
        let n = self.vm_code.len();
        let ghost lines = string_views(self.vm_code@);
        assert(lines.len() == n);
        let mut found = false;
        while !found && self.position < n
            invariant
                n == self.vm_code@.len(),
                lines == string_views(self.vm_code@),
                lines == old(self)@.lines,
                old(self).position <= self.position,
                self.position <= n || self.position == old(self).position,
                found ==> self@ == old(self)@.advanced() && old(self)@.has_more_lines(),
                !found ==> next_command(lines, old(self).position as int) == next_command(
                    lines,
                    self.position as int,
                ),
                !found && self.position > old(self).position ==> self.current_command is None,
                !found && self.position == old(self).position ==> self@ == old(self)@,
            decreases n - self.position,
        {
            let i = self.position;
            assert(lines[i as int] == self.vm_code@[i as int]@);
            let mut command: Option<String> = None;
            if !line_is_blank(self.vm_code[i].as_str()) {
                let line = trimmed(self.vm_code[i].as_str());
                if !starts_with(line.as_str(), "//") {
                    command = Some(line);
                }
            }
            found = command.is_some();
            self.current_command = command;
            self.position = i + 1;
        }
        proof {
            if !found {
                lemma_next_command_bounds(lines, self.position as int);
            }
        }
        Ok(())
    }

    /// The line of the current command, without the white space around it.
    pub fn current_line(&self) -> (r: Option<String>)
        ensures
            match self@.current {
                Some(line) => r matches Some(text) && text@ == line,
                None => r is None,
            },
    {
        match &self.current_command {
            Some(line) => Some(line.clone()),
            None => None,
        }
    }

    /// Whether there is a current command.
    pub fn has_command(&self) -> (r: bool)
        ensures
            r == self@.current is Some,
    {
        self.current_command.is_some()
    }

    /// The kind of the current command, or `None` where it begins with no
    /// keyword. To ask without a current command breaks the classifier's
    /// rules.
    pub fn command_type(&self) -> (r: Result<Option<CommandType>, TranslateError>)
        ensures
            match self@.current {
                Some(line) => r matches Ok(kind) && kind == keyword_kind(line),
                None => r matches Err(e) && e@ == ErrorView::InternalInvariant,
            },
    {
        match &self.current_command {
            Some(line) => Ok(command_kind(line.as_str())),
            None => Err(TranslateError::InternalInvariant),
        }
    }

    /// The first operand of the current command. To ask without a current
    /// command breaks the classifier's rules.
    pub fn arg1(&self) -> (r: Result<String, TranslateError>)
        ensures
            match self@.current {
                Some(line) => match first_operand(line) {
                    Ok(word) => r matches Ok(operand) && operand@ == word,
                    Err(e) => r matches Err(x) && x@ == e,
                },
                None => r matches Err(e) && e@ == ErrorView::InternalInvariant,
            },
    {
        let line = match &self.current_command {
            Some(line) => line.as_str(),
            None => {
                return Err(TranslateError::InternalInvariant);
            },
        };
        let commands = split_words(line);
        assert(string_views(commands@).len() == commands@.len());
        let at: usize = match command_kind(line) {
            None => {
                return Err(TranslateError::Syntax(line.to_owned()));
            },
            Some(CommandType::Return) => {
                return Err(TranslateError::InternalInvariant);
            },
            Some(CommandType::Arithmetic) => 0,
            Some(_) => 1,
        };
        if at < commands.len() {
            assert(string_views(commands@)[at as int] == commands@[at as int]@);
            Ok(commands[at].clone())
        } else {
            Err(TranslateError::Syntax(line.to_owned()))
        }
    }

    /// The second operand of the current command. To ask without a current
    /// command breaks the classifier's rules.
    pub fn arg2(&self) -> (r: Result<Option<u16>, TranslateError>)
        ensures
            match self@.current {
                Some(line) => match second_operand(line) {
                    Ok(n) => r == Ok::<Option<u16>, TranslateError>(Some(n)),
                    Err(e) => r matches Err(x) && x@ == e,
                },
                None => r matches Err(e) && e@ == ErrorView::InternalInvariant,
            },
    {
        let line = match &self.current_command {
            Some(line) => line.as_str(),
            None => {
                return Err(TranslateError::InternalInvariant);
            },
        };
        let commands = split_words(line);
        assert(string_views(commands@).len() == commands@.len());
        match command_kind(line) {
            None => Err(TranslateError::Syntax(line.to_owned())),
            Some(kind) => {
                if operand_count(kind) != 2 {
                    return Err(TranslateError::InternalInvariant);
                }
                if commands.len() <= 2 {
                    return Err(TranslateError::Syntax(line.to_owned()));
                }
                assert(string_views(commands@)[2] == commands@[2]@);
                match parse_u16(commands[2].as_str()) {
                    Some(n) => Ok(Some(n)),
                    None => Err(TranslateError::Syntax(line.to_owned())),
                }
            },
        }
    }

    /// The current command, or the error that its line is refused with. To
    /// ask without a current command breaks the classifier's rules.
    pub fn command(&self) -> (r: Result<Command, TranslateError>)
        ensures
            match self@.current {
                Some(line) => match classified(line) {
                    Ok(c) => r matches Ok(command) && command@ == c,
                    Err(e) => r matches Err(x) && x@ == e,
                },
                None => r matches Err(e) && e@ == ErrorView::InternalInvariant,
            },
    {
        match &self.current_command {
            Some(line) => classify(line.as_str()),
            None => Err(TranslateError::InternalInvariant),
        }
    }
}

} // verus!
