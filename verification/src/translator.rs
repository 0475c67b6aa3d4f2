//! The translation driver: feeds the commands of each source unit to the
//! code generator, in order.

use vstd::prelude::*;
use vstd::string::*;
use crate::code_writer::{CodeWriter, WriterState};
use crate::command::classified;
use crate::error::{ErrorView, TranslateError, located};
use crate::lowering::{bootstrap_lines, infinity_loop_lines};
use crate::parser::{Parser, lemma_next_command_bounds, next_command};
use crate::text::{string_views, trim};

verus! {

/// One source unit: the lines of its text, and the name that its static
/// variables are scoped by.
#[derive(Clone, Debug, PartialEq, Eq)]
pub struct SourceUnit {
    pub name: String,
    pub lines: Vec<String>,
}

/// The mathematical value of a [`SourceUnit`].
pub struct UnitView {
    pub name: Seq<char>,
    pub lines: Seq<Seq<char>>,
}

impl View for SourceUnit {
    type V = UnitView;

    open spec fn view(&self) -> UnitView {
        UnitView { name: self.name@, lines: string_views(self.lines@) }
    }
}

/// The views of a sequence of source units.
pub open spec fn unit_views(units: Seq<SourceUnit>) -> Seq<UnitView> {
    units.map_values(|u: SourceUnit| u@)
}

/// What a translation leaves behind: the state of the generator, and the
/// error that stopped the translation, if any.
pub struct Outcome {
    pub state: WriterState,
    pub error: Option<ErrorView>,
}

/// What the translation of the commands on the lines from `from` on leaves
/// behind. Blank lines and comments add nothing. Each command line is
/// classified; then the counter moves on by one, so that the command gets a
/// number that nothing before it in the run has; then the command is lowered
/// at that number. The translation stops at the first line that is refused:
/// with the state as it was before that line where the line is no command or
/// no number is left for it, and with the counter moved on where the
/// generator refuses the command.
pub open spec fn translate_lines(state: WriterState, lines: Seq<Seq<char>>, from: int) -> Outcome
    decreases lines.len() - from,
{
    let i = next_command(lines, from);
    if from < 0 || i >= lines.len() {
        Outcome { state, error: None }
    } else {
        proof {
            lemma_next_command_bounds(lines, from);
        }
        let line = trim(lines[i]);
        match classified(line) {
            Err(e) => Outcome { state, error: Some(e) },
            Ok(command) => if state.counter == u16::MAX {
                Outcome { state, error: Some(ErrorView::CounterExhausted(line)) }
            } else {
                match state.counted().lowered(command) {
                    Err(e) => Outcome { state: state.counted(), error: Some(located(e, line)) },
                    Ok(next) => translate_lines(next, lines, i + 1),
                }
            },
        }
    }
}

/// What the translation of one source unit leaves behind: the unit's name
/// becomes the scope of static variables, then its lines are translated.
pub open spec fn translate_unit_state(state: WriterState, unit: UnitView) -> Outcome {
    translate_lines(WriterState { source_name: unit.name, ..state }, unit.lines, 0)
}

/// What the translation of the units from `from` on leaves behind: the units
/// are translated in order, up to the first one that is stopped by an error.
pub open spec fn translate_units(state: WriterState, units: Seq<UnitView>, from: int) -> Outcome
    decreases units.len() - from,
{
    if from < 0 || from >= units.len() {
        Outcome { state, error: None }
    } else {
        let first = translate_unit_state(state, units[from]);
        if first.error is Some {
            first
        } else {
            translate_units(first.state, units, from + 1)
        }
    }
}

/// The assembly text of a whole run, or the first error met: the bootstrap
/// code, the code of the units in order, and the final loop.
pub open spec fn translation(output_name: Seq<char>, units: Seq<UnitView>) -> Result<
    Seq<u8>,
    ErrorView,
> {
    let end = translate_units(WriterState::started(output_name), units, 0);
    match end.error {
        Some(e) => Err(e),
        None => Ok(end.state.emitted(infinity_loop_lines(end.state.has_end_label)).output),
    }
}

/// The numbers at which the commands on the lines from `from` on are
/// lowered, in order, as far as the translation goes without error.
pub open spec fn command_numbers(state: WriterState, lines: Seq<Seq<char>>, from: int) -> Seq<u16>
    decreases lines.len() - from,
{
    let i = next_command(lines, from);
    if from < 0 || i >= lines.len() {
        Seq::empty()
    } else {
        proof {
            lemma_next_command_bounds(lines, from);
        }
        match classified(trim(lines[i])) {
            Err(_) => Seq::empty(),
            Ok(command) => if state.counter == u16::MAX {
                Seq::empty()
            } else {
                match state.counted().lowered(command) {
                    Err(_) => Seq::empty(),
                    Ok(next) => seq![state.counted().counter] + command_numbers(
                        next,
                        lines,
                        i + 1,
                    ),
                }
            },
        }
    }
}

/// The numbers at which the commands of the units from `from` on are
/// lowered, in order, as far as the translation goes without error.
pub open spec fn run_numbers(state: WriterState, units: Seq<UnitView>, from: int) -> Seq<u16>
    decreases units.len() - from,
{
    if from < 0 || from >= units.len() {
        Seq::empty()
    } else {
        let scoped = WriterState { source_name: units[from].name, ..state };
        let first = translate_unit_state(state, units[from]);
        command_numbers(scoped, units[from].lines, 0) + if first.error is Some {
            Seq::empty()
        } else {
            run_numbers(first.state, units, from + 1)
        }
    }
}

/// The commands of a unit are lowered at successive numbers, the first of
/// them at the number after the one that the counter holds; and a unit that
/// is translated without error leaves the counter at the number of its last
/// command.
pub proof fn lemma_command_numbers(state: WriterState, lines: Seq<Seq<char>>, from: int)
    ensures
        forall|k: int|
            0 <= k < command_numbers(state, lines, from).len() ==> #[trigger] command_numbers(
                state,
                lines,
                from,
            )[k] == state.counter + 1 + k,
        translate_lines(state, lines, from).error is None ==> translate_lines(
            state,
            lines,
            from,
        ).state.counter == state.counter + command_numbers(state, lines, from).len(),
    decreases lines.len() - from,
{
    let i = next_command(lines, from);
    if !(from < 0 || i >= lines.len()) {
        lemma_next_command_bounds(lines, from);
        match classified(trim(lines[i])) {
            Err(_) => {},
            Ok(command) => {
                if state.counter != u16::MAX {
                    match state.counted().lowered(command) {
                        Err(_) => {},
                        Ok(next) => {
                            lemma_command_numbers(next, lines, i + 1);
                            let rest = command_numbers(next, lines, i + 1);
                            let all = command_numbers(state, lines, from);
                            assert(all == seq![state.counted().counter] + rest);
                            assert forall|k: int| 0 <= k < all.len() implies #[trigger] all[k]
                                == state.counter + 1 + k by {
                                if k > 0 {
                                    assert(all[k] == rest[k - 1]);
                                }
                            }
                        },
                    }
                }
            },
        }
    }
}

/// The commands of a run are lowered at successive numbers, from the first
/// unit to the last, the first of them at the number after the one that the
/// counter holds.
pub proof fn lemma_run_numbers(state: WriterState, units: Seq<UnitView>, from: int)
    ensures
        forall|k: int|
            0 <= k < run_numbers(state, units, from).len() ==> #[trigger] run_numbers(
                state,
                units,
                from,
            )[k] == state.counter + 1 + k,
    decreases units.len() - from,
{
    if !(from < 0 || from >= units.len()) {
        let scoped = WriterState { source_name: units[from].name, ..state };
        let head = command_numbers(scoped, units[from].lines, 0);
        lemma_command_numbers(scoped, units[from].lines, 0);
        let first = translate_unit_state(state, units[from]);
        match first.error {
            Some(_) => {
                assert(run_numbers(state, units, from) =~= head);
            },
            None => {
                let next = first.state;
                lemma_run_numbers(next, units, from + 1);
                let rest = run_numbers(next, units, from + 1);
                let all = run_numbers(state, units, from);
                assert(all == head + rest);
                assert forall|k: int| 0 <= k < all.len() implies #[trigger] all[k]
                    == state.counter + 1 + k by {
                    if k >= head.len() {
                        assert(all[k] == rest[k - head.len()]);
                    } else {
                        assert(all[k] == head[k]);
                    }
                }
            },
        }
    }
}

/// No two commands of a run are lowered at the same number, so that every
/// comparison and every call site gets labels of its own: of two commands,
/// the later one has the greater number.
pub proof fn lemma_numbers_apart(state: WriterState, units: Seq<UnitView>, a: int, b: int)
    requires
        0 <= a < b < run_numbers(state, units, 0).len(),
    ensures
        run_numbers(state, units, 0)[a] < run_numbers(state, units, 0)[b],
{
    lemma_run_numbers(state, units, 0);
}

/// The number at which the bootstrap code of a run is written.
pub open spec fn bootstrap_number() -> u16 {
    0
}

/// A run writes its bootstrap code at the bootstrap's number, and lowers no
/// command at that number: the call site in the bootstrap code has a return
/// address of its own.
pub proof fn lemma_bootstrap_number(output_name: Seq<char>, units: Seq<UnitView>, k: int)
    requires
        0 <= k < run_numbers(WriterState::started(output_name), units, 0).len(),
    ensures
        WriterState::started(output_name).output == WriterState::fresh(output_name).emitted(
            bootstrap_lines(bootstrap_number()),
        ).output,
        run_numbers(WriterState::started(output_name), units, 0)[k] > bootstrap_number(),
{
    lemma_run_numbers(WriterState::started(output_name), units, 0);
}

/// The path to translate, taken from the arguments of the program: the first
/// argument after the program's name, or the present directory where that is
/// missing or empty.
pub open spec fn chosen_path(args: Seq<Seq<char>>) -> Seq<char> {
    if args.len() > 1 && args[1].len() > 0 {
        args[1]
    } else {
        "./"@
    }
}

/// The path to translate, taken from the arguments of the program.
pub fn parse_arg(args: Vec<String>) -> (r: Result<String, TranslateError>)
    ensures
        r matches Ok(path) && path@ == chosen_path(string_views(args@)),
{
    assert(string_views(args@).len() == args@.len());
    if args.len() > 1 {
        assert(string_views(args@)[1] == args@[1]@);
        if !args[1].as_str().is_empty() {
            return Ok(args[1].clone());
        }
    }
    Ok("./".to_owned())
}

/// Translates one source unit: makes it the scope of static variables and
/// feeds its commands to the generator, each at the number after the one
/// that the counter holds. The error of a refused line tells the line. After
/// an error the generator holds the code of the commands in front of the one
/// that was refused, which is of no use as a program.
pub fn translate_unit(writer: &mut CodeWriter, unit: SourceUnit) -> (r: Result<(), TranslateError>)
    ensures
        final(writer)@ == translate_unit_state(old(writer)@, unit@).state,
        match translate_unit_state(old(writer)@, unit@).error {
            None => r is Ok,
            Some(e) => r matches Err(x) && x@ == e,
        },
{
    let ghost lines = unit@.lines;
    let ghost goal = translate_unit_state(old(writer)@, unit@);
    let _ = writer.set_filename(unit.name.as_str());
    let mut parser = Parser::new(unit.lines);
    let mut more = true;
    while more
        invariant
            parser@.lines == lines,
            parser@.position <= lines.len(),
            goal == translate_unit_state(old(writer)@, unit@),
            goal == translate_lines(writer@, lines, parser@.position as int),
            !more ==> translate_lines(writer@, lines, parser@.position as int) == (Outcome {
                state: writer@,
                error: None,
            }),
        decreases
                lines.len() - parser@.position + if more {
                    1int
                } else {
                    0int
                },
    {
        let ghost from = parser@.position as int;
        proof {
            lemma_next_command_bounds(lines, from);
        }
        let has_lines = match parser.has_more_lines() {
            Ok(b) => b,
            Err(e) => {
                return Err(e);
            },
        };
        if !has_lines {
            more = false;
        } else {
            let _ = parser.advance();
            if !parser.has_command() {
                proof {
                    lemma_next_command_bounds(lines, parser@.position as int);
                }
                more = false;
            } else {
                let command = match parser.command() {
                    Ok(command) => command,
                    Err(e) => {
                        return Err(e);
                    },
                };
                let line = match parser.current_line() {
                    Some(line) => line,
                    None => {
                        return Err(TranslateError::InternalInvariant);
                    },
                };
                match writer.increment_uniq_index() {
                    Ok(_) => {},
                    Err(_) => {
                        return Err(TranslateError::CounterExhausted(line));
                    },
                }
                match writer.write_command(&command) {
                    Ok(_) => {},
                    Err(e) => {
                        return Err(e.at_line(line.as_str()));
                    },
                }
            }
        }
    }
    Ok(())
}

/// Translates the source units in order into one assembly text: the
/// bootstrap code, the code of every command, and the final loop. The
/// bootstrap code is written at the number 0 and the commands at the numbers
/// from 1 on. `output_name` is the scope of static variables before the
/// first unit.
pub fn vm_translator(output_name: &str, units: Vec<SourceUnit>) -> (r: Result<
    Vec<u8>,
    TranslateError,
>)
    ensures
        match translation(output_name@, unit_views(units@)) {
            Ok(bytes) => r matches Ok(text) && text@ == bytes,
            Err(e) => r matches Err(x) && x@ == e,
        },
{
    let mut code_writer = CodeWriter::new(output_name);
    let ghost start = code_writer@;
    let ghost all = unit_views(units@);
    for unit in it: units
        invariant
            it.seq() == units@,
            all == unit_views(units@),
            start == WriterState::started(output_name@),
            translate_units(start, all, 0) == translate_units(code_writer@, all, it.index() as int),
    {
        proof {
            assert(all[it.index() as int] == unit@);
        }
        match translate_unit(&mut code_writer, unit) {
            Ok(_) => {},
            Err(e) => {
                return Err(e);
            },
        }
    }
    code_writer.close()
}

} // verus!
