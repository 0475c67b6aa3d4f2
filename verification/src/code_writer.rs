//! The code generator: lowers commands to assembly text and collects the
//! text of one translation run.

use vstd::prelude::*;
use vstd::string::*;
use vstd::utf8::encode_utf8;
use crate::arithmetic::ArithmeticCommandHelper;
use crate::assembly::{LineView, VariableRegister, join, lemma_lines_flush, render, written_lines};
use crate::command::{
    Command, CommandType, CommandView, Operation, Segment, is_unary, lemma_operation_name,
    lemma_segment_name, operation_of, segment_name, segment_of,
};
use crate::error::{ErrorView, TranslateError};
use crate::fragments::{
    bootstrap_fragment, call_fragment, function_fragment, goto_fragment, if_fragment,
    infinity_loop_fragment, label_fragment, load_register_fragment, operand_fragment, pop_fragment,
    pop_segment_fragment, push_fragment, push_segment_fragment, return_fragment,
};
use crate::indent::{is_flush, unindent_octets, unindent_text, without_leading_break};
use crate::lowering::{
    arithmetic_lines, arithmetic_template, arithmetic_text, bootstrap_lines, call_lines,
    function_lines, goto_lines, if_lines, infinity_loop_lines, label_lines,
    lemma_arithmetic_template, lemma_pop_segment_visible, lemma_push_segment_visible,
    load_register_lines, pop_lines, pop_segment_lines, push_lines, push_segment_lines, return_lines,
};
use crate::text::same_text;

verus! {

/// The state of a code generator, as contracts see it.
pub struct WriterState {
    /// The assembly text written so far, as bytes.
    pub output: Seq<u8>,
    /// The name of the source unit that is being translated: the scope of
    /// its static variables.
    pub source_name: Seq<char>,
    /// The number from which a comparison or call that is written next takes
    /// its labels. The bootstrap code is written at 0; a run moves the
    /// counter on before every command.
    pub counter: u16,
    /// Whether the bootstrap code has been written.
    pub bootstrap_emitted: bool,
    /// Whether the program has declared the label `END`.
    pub has_end_label: bool,
}

impl WriterState {
    /// The state of a generator that has written nothing yet.
    pub open spec fn fresh(source_name: Seq<char>) -> WriterState {
        WriterState {
            output: Seq::empty(),
            source_name,
            counter: 0,
            bootstrap_emitted: false,
            has_end_label: false,
        }
    }

    /// Whether the bootstrap code may be written: it has not been written
    /// before, and the program has not declared the label `END` yet.
    pub open spec fn may_bootstrap(self) -> bool {
        !self.bootstrap_emitted && !self.has_end_label
    }

    /// The state after the bootstrap code was written.
    pub open spec fn bootstrapped(self) -> WriterState {
        WriterState { bootstrap_emitted: true, ..self.emitted(bootstrap_lines(self.counter)) }
    }

    /// The state of a generator at the start of a run: it has written the
    /// bootstrap code, and nothing else.
    pub open spec fn started(source_name: Seq<char>) -> WriterState {
        WriterState::fresh(source_name).bootstrapped()
    }

    /// The state after `text` was put behind the output, as bytes.
    pub open spec fn appended(self, text: Seq<char>) -> WriterState {
        WriterState { output: self.output + encode_utf8(text), ..self }
    }

    /// The state after the text of `lines` was put behind the output, without
    /// the empty line at their start.
    pub open spec fn emitted(self, lines: Seq<LineView>) -> WriterState {
        self.appended(render(written_lines(lines)))
    }

    /// The state after the counter moved on by one.
    pub open spec fn counted(self) -> WriterState {
        WriterState { counter: (self.counter + 1) as u16, ..self }
    }

    /// The state after a command was lowered and its code written, or the
    /// error that the command is refused with. The text of the lines that the
    /// command stands for is put behind the output; labels of comparisons and
    /// return addresses are numbered by the counter; the label `END` is taken
    /// note of. A push or a pop is refused, as unsupported, where its segment
    /// cannot be used in this way with its index.
    pub open spec fn lowered(self, command: CommandView) -> Result<WriterState, ErrorView> {
        match command_lines(command, self.source_name, self.counter) {
            Some(lines) => Ok(
                WriterState {
                    has_end_label: self.has_end_label || command == CommandView::Label(
                        end_label(),
                    ),
                    ..self.appended(render(lines))
                },
            ),
            None => match command {
                CommandView::Push(segment, index) => Err(
                    ErrorView::UnsupportedSegment(segment_name(segment), index),
                ),
                CommandView::Pop(segment, index) => Err(
                    ErrorView::UnsupportedSegment(segment_name(segment), index),
                ),
                _ => Err(ErrorView::InternalInvariant),
            },
        }
    }
}

/// The register that generated code uses as scratch space.
pub open spec fn scratch() -> VariableRegister {
    VariableRegister::R13
}

/// The name of the label that the final loop of every program stands at.
pub open spec fn end_label() -> Seq<char> {
    "END"@
}

/// The lines of `command segment index` in the source unit `unit`, or the
/// error that it is refused with: the segment is unsupported where the
/// command is neither a push nor a pop, where the segment's name is unknown,
/// or where the segment cannot be used in this way with this index.
pub open spec fn segment_lines(
    command: CommandType,
    segment: Seq<char>,
    index: u16,
    unit: Seq<char>,
) -> Result<Seq<LineView>, ErrorView> {
    let lines = match segment_of(segment) {
        Some(s) => match command {
            CommandType::Push => push_segment_lines(s, index, unit),
            _ => pop_segment_lines(s, index, unit, scratch()),
        },
        None => None,
    };
    if command is Push || command is Pop {
        match lines {
            Some(l) => Ok(l),
            None => Err(ErrorView::UnsupportedSegment(segment, index)),
        }
    } else {
        Err(ErrorView::UnsupportedSegment(segment, index))
    }
}

/// The text of the arithmetic command named `command` at the counter `id`,
/// as it stands in the output, or the syntax error that it is refused with
/// where it names no operation.
pub open spec fn arithmetic_code(command: Seq<char>, id: u16) -> Result<Seq<char>, ErrorView> {
    match operation_of(command) {
        Some(op) => Ok(arithmetic_text(op, scratch(), id)),
        None => Err(ErrorView::Syntax(command)),
    }
}

/// The lines that a command stands for in the output, in the source unit
/// `unit` and at the counter `id`, or `None` where the command is refused.
pub open spec fn command_lines(command: CommandView, unit: Seq<char>, id: u16) -> Option<
    Seq<LineView>,
> {
    match command {
        CommandView::Arithmetic(op) => Some(arithmetic_lines(op, scratch(), id)),
        CommandView::Push(segment, index) => match push_segment_lines(segment, index, unit) {
            Some(lines) => Some(written_lines(lines)),
            None => None,
        },
        CommandView::Pop(segment, index) => match pop_segment_lines(
            segment,
            index,
            unit,
            scratch(),
        ) {
            Some(lines) => Some(written_lines(lines)),
            None => None,
        },
        CommandView::Label(name) => Some(written_lines(label_lines(name))),
        CommandView::Goto(name) => Some(written_lines(goto_lines(name))),
        CommandView::IfGoto(name) => Some(written_lines(if_lines(name))),
        CommandView::Function(name, n_vars) => Some(written_lines(function_lines(name, n_vars))),
        CommandView::Call(name, n_args) => Some(written_lines(call_lines(name, n_args, id))),
        CommandView::Return => Some(written_lines(return_lines())),
    }
}

/// The code generator of one translation run.
pub struct CodeWriter {
    assembly: Vec<u8>,
    vm_filename: String,
    incremental_uniq_index: u16,
    bootstrap_emitted: bool,
    has_end_label: bool,
}

impl View for CodeWriter {
    type V = WriterState;

    closed spec fn view(&self) -> WriterState {
        WriterState {
            output: self.assembly@,
            source_name: self.vm_filename@,
            counter: self.incremental_uniq_index,
            bootstrap_emitted: self.bootstrap_emitted,
            has_end_label: self.has_end_label,
        }
    }
}

impl CodeWriter {
    /// A generator for a run whose first source unit is named `source_name`.
    /// It has written the bootstrap code, and nothing else.
    pub fn new(source_name: &str) -> (writer: CodeWriter)
        ensures
            writer@ == WriterState::started(source_name@),
    {
        let mut writer = CodeWriter {
            assembly: Vec::new(),
            vm_filename: source_name.to_owned(),
            incremental_uniq_index: 0,
            bootstrap_emitted: false,
            has_end_label: false,
        };
        let _ = writer.write_bootstrap_code();
        writer
    }

    /// Makes `source_name` the source unit that is being translated.
    pub fn set_filename(&mut self, source_name: &str) -> (r: Result<(), TranslateError>)
        ensures
            r is Ok,
            final(self)@ == (WriterState { source_name: source_name@, ..old(self)@ }),
    {
        self.vm_filename = source_name.to_owned();
        Ok(())
    }

    /// Writes the code of the arithmetic command named `command`.
    pub fn write_arithmetic(&mut self, command: &str) -> (r: Result<(), TranslateError>)
        ensures
            match arithmetic_code(command@, old(self)@.counter) {
                Ok(code) => r is Ok && final(self)@ == old(self)@.appended(code),
                Err(e) => r matches Err(x) && x@ == e && final(self)@ == old(self)@,
            },
    {
        let is_single_operand = match Operation::parse(command) {
            Some(op) => op.is_unary(),
            None => false,
        };
        let variable_register = VariableRegister::R13;
        match ArithmeticCommandHelper::get_command(
            command,
            &variable_register,
            self.incremental_uniq_index,
        ) {
            Ok(operation) => {
                let template = self.get_arithmetic_code(operation.as_str(), is_single_operand);
                proof {
                    lemma_arithmetic_template(
                        operation_of(command@).unwrap(),
                        scratch(),
                        self@.counter,
                    );
                }
                let code = unindent_text(template.as_str());
                self.write_code(code)
            },
            Err(e) => Err(e),
        }
    }

    /// Writes the code of `push segment index` or of `pop segment index`.
    pub fn write_push_pop(&mut self, command: CommandType, segment: &str, index: u16) -> (r: Result<
        (),
        TranslateError,
    >)
        ensures
            match segment_lines(command, segment@, index, old(self)@.source_name) {
                Ok(lines) => r is Ok && final(self)@ == old(self)@.emitted(lines),
                Err(e) => r matches Err(x) && x@ == e && final(self)@ == old(self)@,
            },
    {
        match self.get_segment_code(command, segment, index) {
            Ok(code) => {
                proof {
                    let s = segment_of(segment@).unwrap();
                    let unit = self@.source_name;
                    if command is Push {
                        lemma_push_segment_visible(s, index, unit);
                        lemma_lines_flush(push_segment_lines(s, index, unit).unwrap(), 1);
                    } else {
                        lemma_pop_segment_visible(s, index, unit, scratch());
                        lemma_lines_flush(
                            pop_segment_lines(s, index, unit, scratch()).unwrap(),
                            if s is Static {
                                2
                            } else {
                                1
                            },
                        );
                    }
                }
                self.write_code(code)
            },
            Err(e) => Err(e),
        }
    }

    /// Writes the declaration of the label `label`, and takes note where it
    /// is the label of the final loop.
    pub fn write_label(&mut self, label: &str) -> (r: Result<(), TranslateError>)
        ensures
            r is Ok,
            final(self)@ == (WriterState {
                has_end_label: old(self)@.has_end_label || label@ == end_label(),
                ..old(self)@.emitted(label_lines(label@))
            }),
    {
        if !self.has_end_label {
            if same_text(label, "END") {
                self.has_end_label = true;
            }
        }
        let code = label_fragment(label).render();
        proof {
            lemma_lines_flush(label_lines(label@), 1);
        }
        self.write_code(code)
    }

    /// Writes the code of `goto label`.
    pub fn write_goto(&mut self, label: &str) -> (r: Result<(), TranslateError>)
        ensures
            r is Ok,
            final(self)@ == old(self)@.emitted(goto_lines(label@)),
    {
        let code = self.get_goto_code(label);
        proof {
            lemma_lines_flush(goto_lines(label@), 1);
        }
        self.write_code(code)
    }

    /// Writes the code of `if-goto label`.
    pub fn write_if(&mut self, label: &str) -> (r: Result<(), TranslateError>)
        ensures
            r is Ok,
            final(self)@ == old(self)@.emitted(if_lines(label@)),
    {
        let code = self.get_if_code(label);
        proof {
            lemma_lines_flush(if_lines(label@), 1);
        }
        self.write_code(code)
    }

    /// Writes the code of `function function_name n_vars`.
    pub fn write_function(&mut self, function_name: &str, n_vars: u16) -> (r: Result<
        (),
        TranslateError,
    >)
        ensures
            r is Ok,
            final(self)@ == old(self)@.emitted(function_lines(function_name@, n_vars)),
    {
        let code = self.get_function_code(function_name, n_vars);
        proof {
            lemma_lines_flush(function_lines(function_name@, n_vars), 1);
        }
        self.write_code(code)
    }

    /// Writes the code of `call function_name n_args`. The return address
    /// takes its name from the counter.
    pub fn write_call(&mut self, function_name: &str, n_args: u16) -> (r: Result<
        (),
        TranslateError,
    >)
        ensures
            r is Ok,
            final(self)@ == old(self)@.emitted(
                call_lines(function_name@, n_args, old(self)@.counter),
            ),
    {
        let code = self.get_call_code(function_name, n_args);
        proof {
            lemma_lines_flush(call_lines(function_name@, n_args, self@.counter), 1);
        }
        self.write_code(code)
    }

    /// Writes the code of `return`.
    pub fn write_return(&mut self) -> (r: Result<(), TranslateError>)
        ensures
            r is Ok,
            final(self)@ == old(self)@.emitted(return_lines()),
    {
        let code = self.get_return_code();
        proof {
            lemma_lines_flush(return_lines(), 1);
        }
        self.write_code(code)
    }

    /// Lowers a command and writes its code.
    pub fn write_command(&mut self, command: &Command) -> (r: Result<(), TranslateError>)
        ensures
            match old(self)@.lowered(command@) {
                Ok(state) => r is Ok && final(self)@ == state,
                Err(e) => r matches Err(x) && x@ == e && final(self)@ == old(self)@,
            },
    {
        match command {
            Command::Arithmetic(op) => {
                proof {
                    lemma_operation_name(*op);
                }
                self.write_arithmetic(op.name())
            },
            Command::Push(segment, index) => {
                proof {
                    lemma_segment_name(*segment);
                }
                self.write_push_pop(CommandType::Push, segment.name(), *index)
            },
            Command::Pop(segment, index) => {
                proof {
                    lemma_segment_name(*segment);
                }
                self.write_push_pop(CommandType::Pop, segment.name(), *index)
            },
            Command::Label(name) => self.write_label(name.as_str()),
            Command::Goto(name) => self.write_goto(name.as_str()),
            Command::IfGoto(name) => self.write_if(name.as_str()),
            Command::Function(name, n_vars) => self.write_function(name.as_str(), *n_vars),
            Command::Call(name, n_args) => self.write_call(name.as_str(), *n_args),
            Command::Return => self.write_return(),
        }
    }

    /// Ends the run: writes the final loop and hands out the whole text.
    pub fn close(self) -> (r: Result<Vec<u8>, TranslateError>)
        ensures
            r matches Ok(bytes) && bytes@ == self@.emitted(
                infinity_loop_lines(self@.has_end_label),
            ).output,
    {
        let mut writer = self;
        let code = writer.get_infinity_loop_code();
        proof {
            lemma_lines_flush(infinity_loop_lines(self@.has_end_label), 1);
        }
        let _ = writer.write_code(code);
        Ok(writer.assembly)
    }

    /// Moves the counter on by one, so that what is written next gets labels
    /// of its own. Fails, and changes nothing, where the counter has reached
    /// the last number it can hold.
    pub fn increment_uniq_index(&mut self) -> (r: Result<(), TranslateError>)
        ensures
            match r {
                Ok(_) => old(self)@.counter < u16::MAX && final(self)@ == (WriterState {
                    counter: (old(self)@.counter + 1) as u16,
                    ..old(self)@
                }),
                Err(e) => old(self)@.counter == u16::MAX && e@ == ErrorView::InternalInvariant
                    && final(self)@ == old(self)@,
            },
    {
        if self.incremental_uniq_index == u16::MAX {
            return Err(TranslateError::InternalInvariant);
        }
        self.incremental_uniq_index += 1;
        Ok(())
    }

    /// The assembly text written so far.
    pub fn output(&self) -> (bytes: &Vec<u8>)
        ensures
            bytes@ == self@.output,
    {
        &self.assembly
    }

    /// The name of the source unit that is being translated.
    pub fn source_name(&self) -> (name: &str)
        ensures
            name@ == self@.source_name,
    {
        self.vm_filename.as_str()
    }

    /// The number from which the next comparison or call takes its labels.
    pub fn uniq_index(&self) -> (id: u16)
        ensures
            id == self@.counter,
    {
        self.incremental_uniq_index
    }

    /// Whether the program has declared the label of the final loop.
    pub fn has_end_label(&self) -> (seen: bool)
        ensures
            seen == self@.has_end_label,
    {
        self.has_end_label
    }

    /// Whether the bootstrap code has been written.
    pub fn bootstrap_emitted(&self) -> (emitted: bool)
        ensures
            emitted == self@.bootstrap_emitted,
    {
        self.bootstrap_emitted
    }

    /// Writes the bootstrap code, which a run has once and in front of
    /// everything else. Fails, and changes nothing, where it has been written
    /// before or the program has declared the label `END` already.
    pub fn write_bootstrap_code(&mut self) -> (r: Result<(), TranslateError>)
        ensures
            match r {
                Ok(_) => old(self)@.may_bootstrap() && final(self)@ == old(self)@.bootstrapped(),
                Err(e) => !old(self)@.may_bootstrap() && e@ == ErrorView::InternalInvariant
                    && final(self)@ == old(self)@,
            },
    {
        if self.bootstrap_emitted || self.has_end_label {
            return Err(TranslateError::InternalInvariant);
        }
        let code = self.get_bootstrap_code();
        proof {
            lemma_lines_flush(bootstrap_lines(self@.counter), 1);
        }
        self.bootstrap_emitted = true;
        self.write_code(code)
    }

    /// Puts `code` behind the output, without the indentation that its lines
    /// share and without its first line where that is empty. The code is
    /// flush, so that only the empty first line goes.
    fn write_code(&mut self, code: String) -> (r: Result<(), TranslateError>)
        requires
            is_flush(code@),
        ensures
            r is Ok,
            final(self)@ == old(self)@.appended(without_leading_break(code@)),
    {
        let mut bytes = unindent_octets(code.as_str());
        self.assembly.append(&mut bytes);
        Ok(())
    }

    /// The text of the bootstrap code.
    pub fn get_bootstrap_code(&self) -> (code: String)
        ensures
            code@ == render(bootstrap_lines(self@.counter)),
    {
        bootstrap_fragment(self.incremental_uniq_index).render()
    }

    /// The text of `push segment index` or of `pop segment index`.
    pub fn get_segment_code(&self, command: CommandType, segment: &str, index: u16) -> (r: Result<
        String,
        TranslateError,
    >)
        ensures
            match segment_lines(command, segment@, index, self@.source_name) {
                Ok(lines) => r matches Ok(text) && text@ == render(lines),
                Err(e) => r matches Err(x) && x@ == e,
            },
    {
        let variable_register = VariableRegister::R13;
        let fragment = match command {
            CommandType::Push => match Segment::parse(segment) {
                Some(s) => push_segment_fragment(s, index, self.vm_filename.as_str()),
                None => None,
            },
            CommandType::Pop => match Segment::parse(segment) {
                Some(s) => pop_segment_fragment(
                    s,
                    index,
                    self.vm_filename.as_str(),
                    variable_register,
                ),
                None => None,
            },
            _ => None,
        };
        match fragment {
            Some(f) => Ok(f.render()),
            None => Err(TranslateError::UnsupportedSegment(segment.to_owned(), index)),
        }
    }

    /// The text of `goto label`.
    pub fn get_goto_code(&self, label: &str) -> (code: String)
        ensures
            code@ == render(goto_lines(label@)),
    {
        goto_fragment(label).render()
    }

    /// The text of `if-goto label`.
    pub fn get_if_code(&self, label: &str) -> (code: String)
        ensures
            code@ == render(if_lines(label@)),
    {
        if_fragment(label).render()
    }

    /// The text of `function function_name n_vars`.
    pub fn get_function_code(&self, function_name: &str, n_vars: u16) -> (code: String)
        ensures
            code@ == render(function_lines(function_name@, n_vars)),
    {
        function_fragment(function_name, n_vars).render()
    }

    /// The text of `call function_name n_args` at the present counter.
    pub fn get_call_code(&self, function_name: &str, n_args: u16) -> (code: String)
        ensures
            code@ == render(call_lines(function_name@, n_args, self@.counter)),
    {
        call_fragment(function_name, n_args, self.incremental_uniq_index).render()
    }

    /// The text of `return`.
    pub fn get_return_code(&self) -> (code: String)
        ensures
            code@ == render(return_lines()),
    {
        return_fragment().render()
    }

    /// The text that pushes `D`.
    pub fn get_push_code(&self) -> (code: String)
        ensures
            code@ == render(push_lines()),
    {
        push_fragment().render()
    }

    /// The text that pops into `D`.
    pub fn get_pop_code(&self) -> (code: String)
        ensures
            code@ == render(pop_lines()),
    {
        pop_fragment().render()
    }

    /// The text that stores `D` in `register`.
    pub fn get_load_register_code(&self, register: VariableRegister) -> (code: String)
        ensures
            code@ == join(load_register_lines(register)),
    {
        load_register_fragment(register).join()
    }

    /// The text of the final loop.
    pub fn get_infinity_loop_code(&self) -> (code: String)
        ensures
            code@ == render(infinity_loop_lines(self@.has_end_label)),
    {
        infinity_loop_fragment(self.has_end_label).render()
    }

    /// The text of an arithmetic command around the code `operation` of its
    /// operation, which takes one operand where `unary` holds and two
    /// otherwise.
    pub fn get_arithmetic_code(&self, operation: &str, unary: bool) -> (code: String)
        ensures
            code@ == arithmetic_template(operation@, unary, scratch()),
    {
        let mut code = operand_fragment(unary, VariableRegister::R13).render();
        code.append(operation);
        code.append("\n");
        code.append(self.get_push_code().as_str());
        code
    }
}

} // verus!
