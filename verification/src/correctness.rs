//! What the generated lines do on the target machine.

use vstd::prelude::*;
use crate::assembly::{
    Comp, Dest, Jump, LineView, Pointer, SymbolView, VariableRegister, push_text,
    return_address_text, static_text, true_text, written_lines,
};
use crate::command::{Operation, Segment, is_unary, segment_name};
use crate::lowering::{
    arithmetic_lines, assign, at_number, at_pointer, at_register, base_pointer, bootstrap_lines,
    branch, call_lines, enter_frame_lines, entry_function, frame_word_lines, function_lines,
    goto_lines, if_lines, is_comparison, label_lines, load_register_lines, named_comment,
    numbered_comment, operand_lines, operation_comment, operation_lines, operation_note, operator,
    pop_lines, pop_segment_lines, push_lines,
    push_pointer_lines, push_segment_lines, restore_lines, return_lines, save_frame_lines,
    stack_base, store_through_lines, temp_base, transfer_lines, zero_push_lines,
};
use crate::text::{decimal, is_digit, lemma_decimal_injective, lemma_decimal_value};
use crate::machine::{
    Machine, Memory, address_of, all_bits, bit_and, bit_or, effect, effect_from, execute,
    is_negative, is_straight, jump_taken, lemma_effect_concat, lemma_run_straight, lemma_sequence,
    lemma_straight_concat, lemma_written_effect, pointer_address, register_address, run, word,
    word_size,
};

verus! {

/// The stack pointer of a machine.
pub open spec fn stack_pointer(s: Machine) -> int {
    s.ram.read(pointer_address(Pointer::Sp))
}

/// The word at the top of the stack.
pub open spec fn stack_top(s: Machine) -> int {
    s.ram.read(word(stack_pointer(s) - 1))
}

/// The memory after `v` was stored at the top of the stack and the stack
/// pointer moved up.
pub open spec fn pushed(ram: Memory, v: int) -> Memory {
    ram.write(ram.read(0), v).write(0, word(ram.read(0) + 1))
}

/// The memory after the stack pointer moved down.
pub open spec fn popped(ram: Memory) -> Memory {
    ram.write(0, word(ram.read(0) - 1))
}

/// Pushing stores `D` at the stack pointer and moves the stack pointer up,
/// where the stack pointer does not point at its own word.
pub proof fn lemma_push_effect(s: Machine, table: spec_fn(SymbolView) -> int)
    requires
        stack_pointer(s) != 0,
    ensures
        effect(push_lines(), s, table) == (Machine {
            a: 0,
            d: s.d,
            ram: pushed(s.ram, s.d),
            pc: s.pc + 7,
        }),
        is_straight(push_lines()),
{
    reveal_with_fuel(effect_from, 8);
}

/// Popping moves the stack pointer down and loads the word it then points at
/// into `D`.
pub proof fn lemma_pop_effect(s: Machine, table: spec_fn(SymbolView) -> int)
    ensures
        effect(pop_lines(), s, table) == (Machine {
            a: word(stack_pointer(s) - 1),
            d: popped(s.ram).read(word(stack_pointer(s) - 1)),
            ram: popped(s.ram),
            pc: s.pc + 6,
        }),
        is_straight(pop_lines()),
{
    reveal_with_fuel(effect_from, 7);
}

/// The effect of a block, a push and an empty line in a row.
pub proof fn lemma_then_push(
    prefix: Seq<LineView>,
    s: Machine,
    table: spec_fn(SymbolView) -> int,
    blank: bool,
)
    requires
        is_straight(prefix),
        stack_pointer(effect(prefix, s, table)) != 0,
    ensures
        ({
            let lines = if blank {
                prefix + push_lines() + seq![LineView::Blank]
            } else {
                prefix + push_lines()
            };
            let before = effect(prefix, s, table);
            &&& is_straight(lines)
            &&& effect(lines, s, table) == (Machine {
                a: 0,
                d: before.d,
                ram: pushed(before.ram, before.d),
                pc: before.pc + if blank {
                    8int
                } else {
                    7int
                },
            })
        }),
{
    let before = effect(prefix, s, table);
    lemma_push_effect(before, table);
    lemma_effect_concat(prefix, push_lines(), 0, s, table);
    lemma_straight_concat(prefix, push_lines());
    if blank {
        let tail = seq![LineView::Blank];
        lemma_effect_concat(prefix + push_lines(), tail, 0, s, table);
        lemma_straight_concat(prefix + push_lines(), tail);
        reveal_with_fuel(effect_from, 2);
    }
}

/// The memory word that a segment and an index stand for, for the segments
/// that live in memory: the base that the segment's pointer register holds
/// plus the index; for `temp` the fixed base plus the index; for `pointer`
/// the register `THIS` or `THAT`; for `static` the word that the assembler
/// gives the variable of the source unit.
pub open spec fn target_address(
    segment: Segment,
    index: u16,
    unit: Seq<char>,
    s: Machine,
    table: spec_fn(SymbolView) -> int,
) -> int {
    match segment {
        Segment::Temp => temp_base() + index,
        Segment::Pointer => pointer_address(Pointer::This) + index,
        Segment::Static => address_of(SymbolView::Static(unit, index), table),
        _ => word(index + s.ram.read(pointer_address(base_pointer(segment)))),
    }
}

/// The word that `push segment index` pushes: the index itself for
/// `constant`, and for the others the word in memory that they stand for.
pub open spec fn source_word(
    segment: Segment,
    index: u16,
    unit: Seq<char>,
    s: Machine,
    table: spec_fn(SymbolView) -> int,
) -> int {
    if segment is Constant {
        index as int
    } else {
        s.ram.read(target_address(segment, index, unit, s, table))
    }
}

/// `push segment index` stores the word that the segment and index stand for
/// at the top of the stack and moves the stack pointer up by one; nothing
/// else in memory changes. The lines do not jump. This holds where the stack
/// pointer does not point at its own word.
pub proof fn lemma_push_segment(
    segment: Segment,
    index: u16,
    unit: Seq<char>,
    s: Machine,
    table: spec_fn(SymbolView) -> int,
)
    requires
        push_segment_lines(segment, index, unit) is Some,
        stack_pointer(s) != 0,
    ensures
        ({
            let lines = written_lines(push_segment_lines(segment, index, unit).unwrap());
            let end = effect(lines, s, table);
            &&& is_straight(lines)
            &&& end.pc == s.pc + lines.len()
            &&& end.ram == pushed(s.ram, source_word(segment, index, unit, s, table))
            &&& end.d == source_word(segment, index, unit, s, table)
        }),
{
    lemma_push_segment_template(segment, index, unit, s, table);
    lemma_written_effect(push_segment_lines(segment, index, unit).unwrap(), s, table);
}

/// The effect of the lines of a push with the empty line at their start.
#[verifier::rlimit(60)]
proof fn lemma_push_segment_template(
    segment: Segment,
    index: u16,
    unit: Seq<char>,
    s: Machine,
    table: spec_fn(SymbolView) -> int,
)
    requires
        push_segment_lines(segment, index, unit) is Some,
        stack_pointer(s) != 0,
    ensures
        ({
            let lines = push_segment_lines(segment, index, unit).unwrap();
            let end = effect(lines, s, table);
            &&& is_straight(lines)
            &&& end.pc == s.pc + lines.len()
            &&& end.ram == pushed(s.ram, source_word(segment, index, unit, s, table))
            &&& end.d == source_word(segment, index, unit, s, table)
        }),
{
    reveal_with_fuel(effect_from, 8);
    match segment {
        Segment::Constant => {
            let prefix = seq![
                numbered_comment("constant"@, index),
                at_number(index),
                assign(Dest::D, Comp::A),
            ];
            lemma_then_push(prefix, s, table, false);
        },
        Segment::Temp => {
            let address = (temp_base() + index) as u16;
            let prefix = seq![
                LineView::Blank,
                numbered_comment("temp"@, address),
                at_number(address),
                assign(Dest::D, Comp::M),
            ];
            lemma_then_push(prefix, s, table, true);
        },
        Segment::Pointer => {
            let prefix = if index == 0 {
                seq![
                    LineView::Blank,
                    numbered_comment("this"@, index),
                    at_pointer(Pointer::This),
                    assign(Dest::D, Comp::M),
                ]
            } else {
                seq![
                    LineView::Blank,
                    numbered_comment("that"@, index),
                    at_pointer(Pointer::That),
                    assign(Dest::D, Comp::M),
                ]
            };
            lemma_then_push(prefix, s, table, true);
        },
        Segment::Static => {
            let prefix = seq![
                LineView::Blank,
                numbered_comment("static"@, index),
                LineView::Address(SymbolView::Static(unit, index)),
                LineView::Blank,
                assign(Dest::D, Comp::M),
            ];
            lemma_then_push(prefix, s, table, true);
        },
        _ => {
            let prefix = seq![
                LineView::Blank,
                at_number(index),
                assign(Dest::D, Comp::A),
                numbered_comment(segment_name(segment), index),
                at_pointer(base_pointer(segment)),
                assign(Dest::A, Comp::DPlusM),
                assign(Dest::D, Comp::M),
            ];
            lemma_then_push(prefix, s, table, true);
        },
    }
}

/// The effect of a block, a pop and a store through the scratch register in
/// a row.
pub proof fn lemma_then_pop_and_store(
    prefix: Seq<LineView>,
    s: Machine,
    table: spec_fn(SymbolView) -> int,
    r: VariableRegister,
)
    requires
        is_straight(prefix),
    ensures
        ({
            let lines = prefix + pop_lines() + store_through_lines(r);
            let before = effect(prefix, s, table);
            let down = popped(before.ram);
            &&& is_straight(lines)
            &&& effect(lines, s, table) == (Machine {
                a: down.read(register_address(r)),
                d: down.read(word(stack_pointer(before) - 1)),
                ram: down.write(
                    down.read(register_address(r)),
                    down.read(word(stack_pointer(before) - 1)),
                ),
                pc: before.pc + 10,
            })
        }),
{
    let before = effect(prefix, s, table);
    lemma_pop_effect(before, table);
    lemma_effect_concat(prefix, pop_lines(), 0, s, table);
    lemma_straight_concat(prefix, pop_lines());
    lemma_effect_concat(prefix + pop_lines(), store_through_lines(r), 0, s, table);
    lemma_straight_concat(prefix + pop_lines(), store_through_lines(r));
    reveal_with_fuel(effect_from, 5);
}

/// `pop segment index` takes the word from the top of the stack, moves the
/// stack pointer down by one, and stores the word where the segment and index
/// stand for; besides, the scratch register holds that address, except for
/// `static`. The lines do not jump. This holds where the top of the stack is
/// neither the stack pointer nor the scratch register.
pub proof fn lemma_pop_segment(
    segment: Segment,
    index: u16,
    unit: Seq<char>,
    s: Machine,
    table: spec_fn(SymbolView) -> int,
    r: VariableRegister,
)
    requires
        pop_segment_lines(segment, index, unit, r) is Some,
        word(stack_pointer(s) - 1) != 0,
        word(stack_pointer(s) - 1) != register_address(r),
    ensures
        ({
            let lines = written_lines(pop_segment_lines(segment, index, unit, r).unwrap());
            let end = effect(lines, s, table);
            let target = target_address(segment, index, unit, s, table);
            let noted = if segment is Static {
                s.ram
            } else {
                s.ram.write(register_address(r), target)
            };
            &&& is_straight(lines)
            &&& end.pc == s.pc + lines.len()
            &&& end.ram == popped(noted).write(target, stack_top(s))
        }),
{
    lemma_pop_segment_template(segment, index, unit, s, table, r);
    lemma_written_effect(pop_segment_lines(segment, index, unit, r).unwrap(), s, table);
}

/// The effect of the lines of a pop with the empty line at their start.
#[verifier::rlimit(60)]
proof fn lemma_pop_segment_template(
    segment: Segment,
    index: u16,
    unit: Seq<char>,
    s: Machine,
    table: spec_fn(SymbolView) -> int,
    r: VariableRegister,
)
    requires
        pop_segment_lines(segment, index, unit, r) is Some,
        word(stack_pointer(s) - 1) != 0,
        word(stack_pointer(s) - 1) != register_address(r),
    ensures
        ({
            let lines = pop_segment_lines(segment, index, unit, r).unwrap();
            let end = effect(lines, s, table);
            let target = target_address(segment, index, unit, s, table);
            let noted = if segment is Static {
                s.ram
            } else {
                s.ram.write(register_address(r), target)
            };
            &&& is_straight(lines)
            &&& end.pc == s.pc + lines.len()
            &&& end.ram == popped(noted).write(target, stack_top(s))
        }),
{
    reveal_with_fuel(effect_from, 9);
    match segment {
        Segment::Constant => {},
        Segment::Static => {
            let head = seq![LineView::Blank];
            let tail = seq![
                LineView::Blank,
                numbered_comment("static"@, index),
                LineView::Address(SymbolView::Static(unit, index)),
                LineView::Blank,
                assign(Dest::M, Comp::D),
            ];
            let before = effect(head, s, table);
            lemma_pop_effect(before, table);
            lemma_effect_concat(head, pop_lines(), 0, s, table);
            lemma_straight_concat(head, pop_lines());
            lemma_effect_concat(head + pop_lines(), tail, 0, s, table);
            lemma_straight_concat(head + pop_lines(), tail);
        },
        Segment::Temp => {
            let address = (temp_base() + index) as u16;
            let prefix = seq![
                LineView::Blank,
                numbered_comment("temp"@, address),
                at_number(address),
                assign(Dest::D, Comp::A),
                at_register(r),
                assign(Dest::M, Comp::D),
            ];
            lemma_then_pop_and_store(prefix, s, table, r);
        },
        Segment::Pointer => {
            let prefix = if index == 0 {
                seq![
                    LineView::Blank,
                    numbered_comment("this"@, index),
                    at_pointer(Pointer::This),
                    assign(Dest::D, Comp::A),
                    at_register(r),
                    assign(Dest::M, Comp::D),
                ]
            } else {
                seq![
                    LineView::Blank,
                    numbered_comment("that"@, index),
                    at_pointer(Pointer::That),
                    assign(Dest::D, Comp::A),
                    at_register(r),
                    assign(Dest::M, Comp::D),
                ]
            };
            lemma_then_pop_and_store(prefix, s, table, r);
        },
        _ => {
            let prefix = seq![
                LineView::Blank,
                at_number(index),
                assign(Dest::D, Comp::A),
                numbered_comment(segment_name(segment), index),
                at_pointer(base_pointer(segment)),
                assign(Dest::D, Comp::DPlusM),
                at_register(r),
                assign(Dest::M, Comp::D),
            ];
            lemma_then_pop_and_store(prefix, s, table, r);
        },
    }
}

/// Whether the stack pointer is a word, and the `depth` words below it lie
/// above the registers, which take the first sixteen words of the memory.
pub open spec fn stack_above_registers(s: Machine, depth: int) -> bool {
    16 + depth <= stack_pointer(s) < word_size()
}

/// Whether a segment is addressed through a pointer register and an index.
pub open spec fn is_based(segment: Segment) -> bool {
    segment is Local || segment is Argument || segment is This || segment is That
}

/// A constant that is pushed, popped to a segment and pushed again from
/// there is then at the top of the stack, and the stack has grown by one
/// word: so do the lines of the three commands in a row. This holds where
/// the stack lies above the registers and the word that the segment and
/// index stand for is neither the stack pointer nor the segment's own
/// pointer register.
#[verifier::rlimit(60)]
pub proof fn lemma_push_pop_push(
    n: u16,
    segment: Segment,
    index: u16,
    unit: Seq<char>,
    s: Machine,
    table: spec_fn(SymbolView) -> int,
)
    requires
        pop_segment_lines(segment, index, unit, VariableRegister::R13) is Some,
        s.pc == 0,
        stack_above_registers(s, 0),
        target_address(segment, index, unit, s, table) != pointer_address(Pointer::Sp),
        is_based(segment) ==> target_address(segment, index, unit, s, table) != pointer_address(
            base_pointer(segment),
        ),
    ensures
        ({
            let lines = written_lines(push_segment_lines(Segment::Constant, n, unit).unwrap())
                + written_lines(
                pop_segment_lines(segment, index, unit, VariableRegister::R13).unwrap(),
            ) + written_lines(push_segment_lines(segment, index, unit).unwrap());
            let end = run(lines, s, table, lines.len());
            &&& end.pc == lines.len()
            &&& stack_top(end) == n
            &&& stack_pointer(end) == word(stack_pointer(s) + 1)
        }),
{
    let r = VariableRegister::R13;
    let first = written_lines(push_segment_lines(Segment::Constant, n, unit).unwrap());
    let second = written_lines(pop_segment_lines(segment, index, unit, r).unwrap());
    let third = written_lines(push_segment_lines(segment, index, unit).unwrap());
    let lines = first + second + third;
    lemma_push_segment(Segment::Constant, n, unit, s, table);
    let s1 = effect(first, s, table);
    lemma_pop_segment(segment, index, unit, s1, table, r);
    let s2 = effect(second, s1, table);
    assert(target_address(segment, index, unit, s1, table) == target_address(
        segment,
        index,
        unit,
        s,
        table,
    ));
    assert(stack_pointer(s2) == stack_pointer(s));
    assert(target_address(segment, index, unit, s2, table) == target_address(
        segment,
        index,
        unit,
        s,
        table,
    ));
    lemma_push_segment(segment, index, unit, s2, table);
    lemma_effect_concat(first, second, 0, s, table);
    lemma_effect_concat(first + second, third, 0, s, table);
    lemma_straight_concat(first, second);
    lemma_straight_concat(first + second, third);
    lemma_run_straight(lines, lines, 0, s, table, 0);
}

/// The word that an operation gives for the operands `x` and `y`, where `x`
/// was pushed before `y`; an operation on one operand takes `y`. A comparison
/// goes by the sign of the difference `x - y` as a machine word, and gives
/// all bits set where it holds and zero where it does not.
pub open spec fn operation_result(op: Operation, x: int, y: int) -> int {
    match op {
        Operation::Add => word(x + y),
        Operation::Sub => word(x - y),
        Operation::Neg => word(-y),
        Operation::And => bit_and(x, y),
        Operation::Or => bit_or(x, y),
        Operation::Not => all_bits() - y,
        Operation::Eq => if word(x - y) == 0 {
            all_bits()
        } else {
            0
        },
        Operation::Gt => if word(x - y) != 0 && !is_negative(word(x - y)) {
            all_bits()
        } else {
            0
        },
        Operation::Lt => if is_negative(word(x - y)) {
            all_bits()
        } else {
            0
        },
    }
}

/// The lines that pop the operands leave the second operand in the scratch
/// register and, for an operation on two operands, the first one in `D`.
#[verifier::rlimit(60)]
pub proof fn lemma_operands(unary: bool, s: Machine, table: spec_fn(SymbolView) -> int)
    requires
        stack_above_registers(
            s,
            if unary {
                1int
            } else {
                2int
            },
        ),
    ensures
        ({
            let r = VariableRegister::R13;
            let sp = stack_pointer(s);
            let lines = written_lines(operand_lines(unary, r));
            let end = effect(lines, s, table);
            let below = if unary {
                sp - 1
            } else {
                sp - 2
            };
            &&& is_straight(lines)
            &&& end.pc == s.pc + lines.len()
            &&& end.ram == s.ram.write(0, sp - 1).write(
                register_address(r),
                s.ram.read(sp - 1),
            ).write(0, below)
            &&& !unary ==> end.d == s.ram.read(sp - 2)
        }),
{
    let r = VariableRegister::R13;
    let blank = seq![LineView::Blank];
    reveal_with_fuel(effect_from, 3);
    lemma_pop_effect(s, table);
    let s1 = effect(pop_lines(), s, table);
    lemma_effect_concat(pop_lines(), blank, 0, s, table);
    lemma_straight_concat(pop_lines(), blank);
    let s2 = effect(pop_lines() + blank, s, table);
    lemma_effect_concat(pop_lines() + blank, load_register_lines(r), 0, s, table);
    lemma_straight_concat(pop_lines() + blank, load_register_lines(r));
    let front = pop_lines() + blank + load_register_lines(r);
    let s3 = effect(front, s, table);
    assert(s3.ram == s.ram.write(0, stack_pointer(s) - 1).write(
        register_address(r),
        s.ram.read(stack_pointer(s) - 1),
    ));
    if unary {
        lemma_effect_concat(front, blank, 0, s, table);
        lemma_straight_concat(front, blank);
    } else {
        lemma_pop_effect(s3, table);
        lemma_effect_concat(pop_lines(), blank, 0, s3, table);
        lemma_effect_concat(front, pop_lines() + blank, 0, s, table);
        lemma_straight_concat(front, pop_lines() + blank);
    }
    lemma_written_effect(operand_lines(unary, r), s, table);
}

/// The lines of an operation that is no comparison compute the result into
/// `D` from the first operand in `D` and the second in the scratch register,
/// and leave the memory as it is.
#[verifier::rlimit(60)]
proof fn lemma_operation_effect(
    op: Operation,
    id: u16,
    s: Machine,
    table: spec_fn(SymbolView) -> int,
)
    requires
        !is_comparison(op),
    ensures
        ({
            let r = VariableRegister::R13;
            let lines = written_lines(operation_lines(op, r, id));
            let end = effect(lines, s, table);
            &&& is_straight(lines)
            &&& end.pc == s.pc + lines.len()
            &&& end.ram == s.ram
            &&& end.d == operation_result(op, s.d, s.ram.read(register_address(r)))
        }),
{
    let r = VariableRegister::R13;
    let lines = written_lines(operation_lines(op, r, id));
    if op is And || op is Or || op is Not {
        assert(lines =~= seq![
            LineView::IndentedAddress(SymbolView::Variable(r)),
            LineView::IndentedComment(operation_note(op)),
            operator(op),
            LineView::Indentation,
        ]);
        reveal_with_fuel(effect_from, 5);
    } else {
        assert(lines =~= seq![at_register(r), operation_comment(op), operator(op)]);
        reveal_with_fuel(effect_from, 4);
    }
}

/// The memory after an arithmetic or logical command: the result stands
/// where the first of the operands stood (the only one for an operation on
/// one operand), the stack pointer just above it, and the scratch register
/// holds the operand that was pushed last.
pub open spec fn computed(op: Operation, ram: Memory) -> Memory {
    let sp = ram.read(0);
    let below = if is_unary(op) {
        sp - 1
    } else {
        sp - 2
    };
    ram.write(register_address(VariableRegister::R13), ram.read(sp - 1)).write(
        below,
        operation_result(op, ram.read(sp - 2), ram.read(sp - 1)),
    ).write(0, below + 1)
}

/// The lines of an arithmetic or logical command do not jump, and replace
/// the operands at the top of the stack by the result.
#[verifier::rlimit(60)]
pub proof fn lemma_arithmetic_effect(
    op: Operation,
    id: u16,
    s: Machine,
    table: spec_fn(SymbolView) -> int,
)
    requires
        !is_comparison(op),
        stack_above_registers(
            s,
            if is_unary(op) {
                1int
            } else {
                2int
            },
        ),
    ensures
        ({
            let lines = arithmetic_lines(op, VariableRegister::R13, id);
            let end = effect(lines, s, table);
            &&& is_straight(lines)
            &&& end.pc == s.pc + lines.len()
            &&& end.ram == computed(op, s.ram)
        }),
{
    let r = VariableRegister::R13;
    let unary = is_unary(op);
    let lines = arithmetic_lines(op, r, id);
    let front = written_lines(operand_lines(unary, r));
    let middle = written_lines(operation_lines(op, r, id));
    lemma_operands(unary, s, table);
    let s1 = effect(front, s, table);
    lemma_operation_effect(op, id, s1, table);
    let s2 = effect(middle, s1, table);
    lemma_push_effect(s2, table);
    lemma_sequence(front, middle, s, table);
    lemma_sequence(front + middle, push_lines(), s, table);
    assert(lines =~= front + middle + push_lines());
    let end = effect(lines, s, table);
    let sp = stack_pointer(s);
    let result = operation_result(op, s.ram.read(sp - 2), s.ram.read(sp - 1));
    assert(s1.ram.read(register_address(r)) == s.ram.read(sp - 1));
    assert(s2.d == result);
    assert(end.ram == pushed(s1.ram, result));
    assert(end.ram =~= computed(op, s.ram));
}

/// An arithmetic or logical command replaces its operands at the top of the
/// stack by the result: `x op y` for the operands `x` and `y`, where `x`
/// was pushed before `y`, and `op y` for an operation on one operand. The
/// stack shrinks by one word for two operands and keeps its size for one.
/// Nothing else in memory changes but the scratch register. This holds where
/// the operands lie above the registers.
pub proof fn lemma_arithmetic(op: Operation, id: u16, s: Machine, table: spec_fn(SymbolView) -> int)
    requires
        !is_comparison(op),
        s.pc == 0,
        stack_above_registers(
            s,
            if is_unary(op) {
                1int
            } else {
                2int
            },
        ),
    ensures
        ({
            let lines = arithmetic_lines(op, VariableRegister::R13, id);
            let end = run(lines, s, table, lines.len());
            let sp = stack_pointer(s);
            let below = if is_unary(op) {
                sp - 1
            } else {
                sp - 2
            };
            let result = operation_result(op, s.ram.read(sp - 2), s.ram.read(sp - 1));
            &&& end.pc == lines.len()
            &&& stack_pointer(end) == below + 1
            &&& stack_top(end) == result
            &&& end.ram == computed(op, s.ram)
        }),
{
    let lines = arithmetic_lines(op, VariableRegister::R13, id);
    lemma_arithmetic_effect(op, id, s, table);
    lemma_run_straight(lines, lines, 0, s, table, 0);
}

/// Whether a label or variable stands, in the assembler's table, for the
/// line of `lines` that declares it as a label.
pub open spec fn placed_at_declaration(
    symbol: SymbolView,
    lines: Seq<LineView>,
    table: spec_fn(SymbolView) -> int,
) -> bool {
    let at = address_of(symbol, table);
    0 <= at < lines.len() && lines[at] == LineView::Label(symbol)
}

/// In the lines of a comparison the two labels are declared once each.
#[verifier::rlimit(60)]
proof fn lemma_comparison_labels(op: Operation, id: u16, at: int)
    requires
        is_comparison(op),
        0 <= at < arithmetic_lines(op, VariableRegister::R13, id).len(),
    ensures
        ({
            let lines = arithmetic_lines(op, VariableRegister::R13, id);
            &&& lines.len() == 34
            &&& lines[at] == LineView::Label(SymbolView::True(id)) ==> at == 23
            &&& lines[at] == LineView::Label(SymbolView::Push(id)) ==> at == 25
        }),
{
    let r = VariableRegister::R13;
    let front = written_lines(operand_lines(false, r));
    let middle = written_lines(operation_lines(op, r, id));
    let lines = arithmetic_lines(op, r, id);
    let whole = operand_lines(false, r);
    assert(whole.len() == 16);
    assert(front.len() == 15);
    assert(middle.len() == 11);
    assert(lines =~= front + (middle + seq![LineView::Blank]) + push_lines());
    if at < 15 {
        assert(lines[at] == whole[at + 1]);
        if at + 1 < 6 {
            assert(whole[at + 1] == pop_lines()[at + 1]);
        } else if at + 1 < 7 {
        } else if at + 1 < 9 {
            assert(whole[at + 1] == load_register_lines(r)[at + 1 - 7]);
        } else if at + 1 < 15 {
            assert(whole[at + 1] == pop_lines()[at + 1 - 9]);
        }
    } else if at < 26 {
        assert(lines[at] == operation_lines(op, r, id)[at - 15 + 1]);
    } else if at < 27 {
    } else {
        assert(lines[at] == push_lines()[at - 27]);
    }
}

/// A comparison replaces its operands at the top of the stack by all bits
/// set or by zero, and by nothing else: all bits set where the comparison
/// holds of `x` and `y`, with `x` pushed before `y`, and zero where it does
/// not. The stack shrinks by one word, and nothing else in memory changes but
/// the scratch register. This holds where the operands lie above the
/// registers and the two labels of the comparison stand for the lines that
/// declare them.
#[verifier::rlimit(60)]
pub proof fn lemma_comparison(op: Operation, id: u16, s: Machine, table: spec_fn(SymbolView) -> int)
    requires
        is_comparison(op),
        s.pc == 0,
        stack_above_registers(s, 2),
        placed_at_declaration(
            SymbolView::True(id),
            arithmetic_lines(op, VariableRegister::R13, id),
            table,
        ),
        placed_at_declaration(
            SymbolView::Push(id),
            arithmetic_lines(op, VariableRegister::R13, id),
            table,
        ),
    ensures
        ({
            let lines = arithmetic_lines(op, VariableRegister::R13, id);
            let end = run(lines, s, table, lines.len());
            let sp = stack_pointer(s);
            let result = operation_result(op, s.ram.read(sp - 2), s.ram.read(sp - 1));
            &&& end.pc == lines.len()
            &&& stack_pointer(end) == sp - 1
            &&& stack_top(end) == result
            &&& result == all_bits() || result == 0
            &&& end.ram == s.ram.write(
                register_address(VariableRegister::R13),
                s.ram.read(sp - 1),
            ).write(sp - 2, result).write(0, sp - 1)
        }),
{
    let r = VariableRegister::R13;
    let lines = arithmetic_lines(op, r, id);
    let front = written_lines(operand_lines(false, r));
    let middle = operation_lines(op, r, id);
    let sp = stack_pointer(s);
    let x = s.ram.read(sp - 2);
    let y = s.ram.read(sp - 1);
    let result = operation_result(op, x, y);
    lemma_comparison_labels(op, id, address_of(SymbolView::True(id), table));
    lemma_comparison_labels(op, id, address_of(SymbolView::Push(id), table));
    lemma_operands(false, s, table);
    assert(operand_lines(false, r).len() == 16);
    assert(front.len() == 15);
    assert(middle.len() == 12);
    assert(lines =~= front + (written_lines(middle) + seq![LineView::Blank]) + push_lines());
    assert forall|i: int| 0 <= i < 15 implies lines[i] == #[trigger] front[i] by {}
    assert forall|i: int| 15 <= i < 26 implies #[trigger] lines[i] == middle[i - 14] by {}
    assert(lines[26] is Blank);
    assert forall|i: int| 0 <= i < 7 implies lines[27 + i] == #[trigger] push_lines()[i] by {}
    let s1 = effect(front, s, table);
    lemma_run_straight(lines, front, 0, s, table, 19);
    assert(run(lines, s, table, 34) == run(lines, s1, table, 19));
    assert(s1.pc == 15);
    let s2 = execute(lines[15], s1, table);
    let s3 = execute(lines[16], s2, table);
    let s4 = execute(lines[17], s3, table);
    let s5 = execute(lines[18], s4, table);
    let s6 = execute(lines[19], s5, table);
    assert(s5.pc == 19 && s5.d == word(x - y) && s5.a == 23 && s5.ram == s1.ram);
    assert(run(lines, s1, table, 19) == run(lines, s6, table, 14)) by {
        reveal_with_fuel(run, 6);
    }
    let taken = jump_taken(
        match op {
            Operation::Eq => Jump::IfZero,
            Operation::Gt => Jump::IfPositive,
            _ => Jump::IfNegative,
        },
        s5.d,
    );
    if taken {
        assert(s6.pc == 23);
        let s7 = execute(lines[23], s6, table);
        let s8 = execute(lines[24], s7, table);
        let s9 = execute(lines[25], s8, table);
        let s10 = execute(lines[26], s9, table);
        assert(s10.pc == 27 && s10.d == all_bits() && s10.ram == s1.ram);
        assert(run(lines, s6, table, 14) == run(lines, s10, table, 10)) by {
            reveal_with_fuel(run, 5);
        }
        lemma_push_effect(s10, table);
        lemma_run_straight(lines, push_lines(), 0, s10, table, 3);
        let end = effect(push_lines(), s10, table);
        assert(run(lines, end, table, 3) == end);
        assert(end.ram =~= s.ram.write(register_address(r), y).write(sp - 2, result).write(
            0,
            sp - 1,
        ));
    } else {
        assert(s6.pc == 20);
        let s7 = execute(lines[20], s6, table);
        let s8 = execute(lines[21], s7, table);
        let s9 = execute(lines[22], s8, table);
        let s10 = execute(lines[25], s9, table);
        let s11 = execute(lines[26], s10, table);
        assert(s9.pc == 25);
        assert(s11.pc == 27 && s11.d == 0 && s11.ram == s1.ram);
        assert(run(lines, s6, table, 14) == run(lines, s11, table, 9)) by {
            reveal_with_fuel(run, 6);
        }
        lemma_push_effect(s11, table);
        lemma_run_straight(lines, push_lines(), 0, s11, table, 2);
        let end = effect(push_lines(), s11, table);
        assert(run(lines, end, table, 2) == end);
        assert(end.ram =~= s.ram.write(register_address(r), y).write(sp - 2, result).write(
            0,
            sp - 1,
        ));
    }
}

/// Pushing a pointer register stores the word it holds at the top of the
/// stack, where the stack pointer does not point at its own word.
pub proof fn lemma_push_pointer(p: Pointer, s: Machine, table: spec_fn(SymbolView) -> int)
    requires
        stack_pointer(s) != 0,
    ensures
        is_straight(push_pointer_lines(p)),
        effect(push_pointer_lines(p), s, table) == (Machine {
            a: 0,
            d: s.ram.read(pointer_address(p)),
            ram: pushed(s.ram, s.ram.read(pointer_address(p))),
            pc: s.pc + 11,
        }),
{
    reveal_with_fuel(effect_from, 4);
    lemma_then_push(
        seq![LineView::Blank, at_pointer(p), assign(Dest::D, Comp::M)],
        s,
        table,
        true,
    );
}

/// The memory after a call has saved the caller's frame on the stack: the
/// return address and the four pointer registers, in this order.
pub open spec fn frame_saved(ram: Memory, return_address: int) -> Memory {
    let sp = ram.read(0);
    ram.write(sp, return_address).write(sp + 1, ram.read(1)).write(sp + 2, ram.read(2)).write(
        sp + 3,
        ram.read(3),
    ).write(sp + 4, ram.read(4)).write(0, sp + 5)
}

/// The first part of a call pushes the return address and the caller's four
/// pointer registers.
#[verifier::rlimit(60)]
pub proof fn lemma_save_frame(
    name: Seq<char>,
    id: u16,
    s: Machine,
    table: spec_fn(SymbolView) -> int,
)
    requires
        16 <= stack_pointer(s),
        stack_pointer(s) + 5 < word_size(),
    ensures
        ({
            let lines = save_frame_lines(name, id);
            let end = effect(lines, s, table);
            &&& is_straight(lines)
            &&& lines.len() == 63
            &&& end.pc == s.pc + 63
            &&& end.ram == frame_saved(
                s.ram,
                address_of(SymbolView::ReturnAddress(name, id), table),
            )
        }),
{
    let blank = seq![LineView::Blank];
    let blanks = seq![LineView::Blank, LineView::Blank];
    let head = seq![
        LineView::Blank,
        named_comment(" call function "@, name),
        LineView::Comment(" push returnAddress"@),
        LineView::Address(SymbolView::ReturnAddress(name, id)),
        assign(Dest::D, Comp::A),
    ];
    reveal_with_fuel(effect_from, 6);
    lemma_then_push(head, s, table, false);
    let b1 = head + push_lines();
    let s1 = effect(b1, s, table);
    lemma_sequence(b1, blanks, s, table);
    let b2 = b1 + blanks;
    let s2 = effect(b2, s, table);
    lemma_push_pointer(Pointer::Lcl, s2, table);
    lemma_sequence(b2, push_pointer_lines(Pointer::Lcl), s, table);
    let b3 = b2 + push_pointer_lines(Pointer::Lcl);
    lemma_sequence(b3, blank, s, table);
    let b4 = b3 + blank;
    let s4 = effect(b4, s, table);
    lemma_push_pointer(Pointer::Arg, s4, table);
    lemma_sequence(b4, push_pointer_lines(Pointer::Arg), s, table);
    let b5 = b4 + push_pointer_lines(Pointer::Arg);
    lemma_sequence(b5, blank, s, table);
    let b6 = b5 + blank;
    let s6 = effect(b6, s, table);
    lemma_push_pointer(Pointer::This, s6, table);
    lemma_sequence(b6, push_pointer_lines(Pointer::This), s, table);
    let b7 = b6 + push_pointer_lines(Pointer::This);
    lemma_sequence(b7, blank, s, table);
    let b8 = b7 + blank;
    let s8 = effect(b8, s, table);
    lemma_push_pointer(Pointer::That, s8, table);
    lemma_sequence(b8, push_pointer_lines(Pointer::That), s, table);
    let b9 = b8 + push_pointer_lines(Pointer::That);
    lemma_sequence(b9, blanks, s, table);
    let end = effect(b9 + blanks, s, table);
    assert(end.ram =~= frame_saved(
        s.ram,
        address_of(SymbolView::ReturnAddress(name, id), table),
    ));
}

/// The index of the line of a call that jumps to the function.
pub open spec fn call_jump_index() -> int {
    81
}

/// The number of lines of a call.
pub open spec fn call_length() -> int {
    call_jump_index() + 4
}

/// The memory after a call has saved the caller's frame and set `ARG` and
/// `LCL` for the function.
pub open spec fn frame_entered(ram: Memory, return_address: int, n_args: u16) -> Memory {
    frame_saved(ram, return_address).write(
        pointer_address(Pointer::Arg),
        word(ram.read(0) - n_args),
    ).write(pointer_address(Pointer::Lcl), ram.read(0) + 5)
}

/// The lines of a call, standing in a program from the line that is executed
/// next, save the caller's frame, set `ARG` and `LCL`, and transfer control
/// to the function.
#[verifier::rlimit(60)]
pub proof fn lemma_call_within(
    program: Seq<LineView>,
    name: Seq<char>,
    n_args: u16,
    id: u16,
    s: Machine,
    table: spec_fn(SymbolView) -> int,
)
    requires
        0 <= s.pc,
        s.pc + call_length() <= program.len(),
        forall|i: int|
            0 <= i < call_length() ==> program[s.pc + i] == #[trigger] written_lines(
                call_lines(name, n_args, id),
            )[i],
        16 <= stack_pointer(s),
        stack_pointer(s) + 5 < word_size(),
    ensures
        ({
            let end = run(program, s, table, (call_jump_index() + 1) as nat);
            &&& written_lines(call_lines(name, n_args, id)).len() == call_length()
            &&& written_lines(call_lines(name, n_args, id))[call_jump_index() + 3]
                == LineView::Label(SymbolView::ReturnAddress(name, id))
            &&& end.pc == address_of(SymbolView::Name(name), table)
            &&& end.ram == frame_entered(
                s.ram,
                address_of(SymbolView::ReturnAddress(name, id), table),
                n_args,
            )
        }),
{
    let lines = written_lines(call_lines(name, n_args, id));
    let save = written_lines(save_frame_lines(name, id));
    let enter = enter_frame_lines(n_args);
    let transfer = transfer_lines(name, id);
    let sp = stack_pointer(s);
    lemma_save_frame(name, id, s, table);
    lemma_written_effect(save_frame_lines(name, id), s, table);
    let s1 = effect(save, s, table);
    assert(is_straight(enter));
    assert(enter.len() == 16);
    assert(save.len() == 62);
    let s2 = effect(enter, s1, table);
    assert(s2.ram == s1.ram.write(2, word(sp + 5 - word(5 + n_args))).write(1, sp + 5) && s2.pc
        == s.pc + 78) by {
        reveal_with_fuel(effect_from, 17);
    }
    lemma_sequence(save, enter, s, table);
    let front = save + enter;
    assert(transfer.len() == 7);
    assert(lines =~= save + enter + transfer);
    assert forall|i: int| 0 <= i < 7 implies lines[78 + i] == #[trigger] transfer[i] by {}
    assert forall|i: int| 0 <= i < 78 implies program[s.pc + i] == #[trigger] front[i] by {
        assert(lines[i] == front[i]);
    }
    lemma_run_straight(program, front, 0, s, table, 4);
    assert(run(program, s, table, 82) == run(program, s2, table, 4));
    assert(program[s.pc + 78] == lines[78]);
    assert(program[s.pc + 79] == lines[79]);
    assert(program[s.pc + 80] == lines[80]);
    assert(program[s.pc + 81] == lines[81]);
    let s3 = execute(lines[78], s2, table);
    let s4 = execute(lines[79], s3, table);
    let s5 = execute(lines[80], s4, table);
    let s6 = execute(lines[81], s5, table);
    assert(run(program, s2, table, 4) == s6) by {
        reveal_with_fuel(run, 5);
    }
    assert(word(sp + 5 - word(5 + n_args)) == word(sp - n_args));
}

/// A call saves the caller's frame on the stack, points `ARG` at the first of
/// the `n_args` arguments, which lie just below the saved frame, and `LCL`
/// at the new top of the stack, and then transfers control to the function;
/// the line after the jump declares the return address. Nothing else in
/// memory changes. This holds where the stack lies above the registers and
/// has room for the frame.
pub proof fn lemma_call(
    name: Seq<char>,
    n_args: u16,
    id: u16,
    s: Machine,
    table: spec_fn(SymbolView) -> int,
)
    requires
        s.pc == 0,
        16 <= stack_pointer(s),
        stack_pointer(s) + 5 < word_size(),
    ensures
        ({
            let lines = written_lines(call_lines(name, n_args, id));
            let end = run(lines, s, table, (call_jump_index() + 1) as nat);
            &&& lines.len() == call_length()
            &&& lines[call_jump_index() + 3] == LineView::Label(SymbolView::ReturnAddress(name, id))
            &&& end.pc == address_of(SymbolView::Name(name), table)
            &&& end.ram == frame_entered(
                s.ram,
                address_of(SymbolView::ReturnAddress(name, id), table),
                n_args,
            )
        }),
{
    let lines = written_lines(call_lines(name, n_args, id));
    lemma_save_frame(name, id, s, table);
    assert(enter_frame_lines(n_args).len() == 16);
    assert(transfer_lines(name, id).len() == 7);
    assert(lines.len() == call_length());
    lemma_call_within(lines, name, n_args, id, s, table);
}

/// The bootstrap code sets the stack pointer to the base of the stack and
/// calls the entry function without arguments: control is transferred to the
/// entry function with its frame on the stack, and nothing else in memory
/// changes.
#[verifier::rlimit(60)]
pub proof fn lemma_bootstrap(id: u16, s: Machine, table: spec_fn(SymbolView) -> int)
    requires
        s.pc == 0,
    ensures
        ({
            let lines = written_lines(bootstrap_lines(id));
            let end = run(lines, s, table, (6 + call_jump_index() + 1) as nat);
            &&& end.pc == address_of(SymbolView::Name(entry_function()), table)
            &&& end.ram == frame_entered(
                s.ram.write(pointer_address(Pointer::Sp), stack_base() as int),
                address_of(SymbolView::ReturnAddress(entry_function(), id), table),
                0,
            )
            &&& stack_pointer(end) == stack_base() + 5
            &&& end.ram.read(pointer_address(Pointer::Lcl)) == stack_base() + 5
            &&& end.ram.read(pointer_address(Pointer::Arg)) == stack_base()
        }),
{
    let lines = written_lines(bootstrap_lines(id));
    let blank = seq![LineView::Blank];
    let head = seq![
        LineView::Comment(" bootstrap     "@),
        at_number(stack_base()),
        assign(Dest::D, Comp::A),
        at_pointer(Pointer::Sp),
        assign(Dest::M, Comp::D),
        LineView::Blank,
    ];
    let call = call_lines(entry_function(), 0, id);
    let s1 = effect(head, s, table);
    assert(s1.pc == 6 && s1.ram == s.ram.write(0, 256) && is_straight(head)) by {
        reveal_with_fuel(effect_from, 7);
    }
    lemma_save_frame(entry_function(), id, s1, table);
    assert(enter_frame_lines(0).len() == 16);
    assert(transfer_lines(entry_function(), id).len() == 7);
    assert(call.len() == call_length() + 1);
    assert(call[0] is Blank);
    assert(lines =~= head + written_lines(call) + blank);
    assert forall|i: int| 0 <= i < 6 implies lines[i] == #[trigger] head[i] by {}
    assert forall|i: int| 0 <= i < call_length() implies lines[6 + i] == #[trigger] written_lines(
        call,
    )[i] by {}
    lemma_run_straight(lines, head, 0, s, table, (call_jump_index() + 1) as nat);
    lemma_call_within(lines, entry_function(), 0, id, s1, table);
}

/// Whether a machine is about to return from a function with a frame in good
/// order: the two variables of the return sequence are different words above
/// the registers and below the stack, which starts at word 256; the return
/// value lies on the stack; the frame base lies above the five saved words;
/// and the first argument lies on the stack at or below the saved return
/// address.
pub open spec fn frame_in_order(s: Machine, table: spec_fn(SymbolView) -> int) -> bool {
    let frame = address_of(SymbolView::Frame, table);
    let target = address_of(SymbolView::ReturnTarget, table);
    let base = s.ram.read(pointer_address(Pointer::Lcl));
    let first = s.ram.read(pointer_address(Pointer::Arg));
    &&& 16 <= frame < 256
    &&& 16 <= target < 256
    &&& frame != target
    &&& 256 < stack_pointer(s) < word_size()
    &&& 256 + 5 <= base < word_size()
    &&& 256 <= first <= base - 5
}

/// The effect of restoring one pointer register from the saved frame.
proof fn lemma_restore(
    offset: u16,
    p: Pointer,
    base: int,
    s: Machine,
    table: spec_fn(SymbolView) -> int,
)
    requires
        1 <= offset <= base < word_size(),
        s.ram.read(address_of(SymbolView::Frame, table)) == base,
    ensures
        is_straight(restore_lines(offset, p)),
        effect(restore_lines(offset, p), s, table).ram == s.ram.write(
            pointer_address(p),
            s.ram.read(base - offset),
        ),
        effect(restore_lines(offset, p), s, table).pc == s.pc + 8,
{
    reveal_with_fuel(effect_from, 9);
    assert(restore_lines(offset, p) =~= seq![
        LineView::Blank,
        at_number(offset),
        assign(Dest::D, Comp::A),
        LineView::Address(SymbolView::Frame),
        assign(Dest::A, Comp::MMinusD),
        assign(Dest::D, Comp::M),
        at_pointer(p),
        assign(Dest::M, Comp::D),
    ]);
}

/// The number of lines of a return.
pub open spec fn return_length() -> int {
    63
}

/// The memory after a return: the return value stands where the first
/// argument was, the stack pointer just above it, the caller's four pointer
/// registers are restored from the saved frame, and the two variables of the
/// return sequence hold the frame base and the return address.
pub open spec fn returned(s: Machine, table: spec_fn(SymbolView) -> int) -> Memory {
    let base = s.ram.read(pointer_address(Pointer::Lcl));
    let first = s.ram.read(pointer_address(Pointer::Arg));
    s.ram.write(address_of(SymbolView::Frame, table), base).write(
        address_of(SymbolView::ReturnTarget, table),
        s.ram.read(base - 5),
    ).write(first, stack_top(s)).write(pointer_address(Pointer::Sp), first + 1).write(
        pointer_address(Pointer::That),
        s.ram.read(base - 1),
    ).write(pointer_address(Pointer::This), s.ram.read(base - 2)).write(
        pointer_address(Pointer::Arg),
        s.ram.read(base - 3),
    ).write(pointer_address(Pointer::Lcl), s.ram.read(base - 4))
}

/// The lines of a return, standing in a program from the line that is
/// executed next, put the return value in place, restore the caller's
/// registers and transfer control to the saved return address.
#[verifier::rlimit(60)]
pub proof fn lemma_return_within(
    program: Seq<LineView>,
    s: Machine,
    table: spec_fn(SymbolView) -> int,
)
    requires
        0 <= s.pc,
        s.pc + return_length() <= program.len(),
        forall|i: int|
            0 <= i < return_length() ==> program[s.pc + i] == #[trigger] written_lines(
                return_lines(),
            )[i],
        frame_in_order(s, table),
    ensures
        ({
            let end = run(program, s, table, return_length() as nat);
            let base = s.ram.read(pointer_address(Pointer::Lcl));
            let first = s.ram.read(pointer_address(Pointer::Arg));
            &&& written_lines(return_lines()).len() == return_length()
            &&& end.pc == s.ram.read(base - 5)
            &&& end.ram == returned(s, table)
        }),
{
    let lines = written_lines(return_lines());
    let frame = address_of(SymbolView::Frame, table);
    let target = address_of(SymbolView::ReturnTarget, table);
    let base = s.ram.read(1);
    let first = s.ram.read(2);
    let sp = stack_pointer(s);
    let value = stack_top(s);
    let block1 = seq![
        LineView::Comment(" return"@),
        at_pointer(Pointer::Lcl),
        assign(Dest::D, Comp::M),
        LineView::Address(SymbolView::Frame),
        assign(Dest::M, Comp::D),
    ];
    let block2 = frame_word_lines(5);
    let block3 = seq![
        LineView::Address(SymbolView::ReturnTarget),
        assign(Dest::M, Comp::D),
        LineView::Blank,
        LineView::Comment(" pop to ARG"@),
    ];
    let block4 = pop_lines();
    let block5 = seq![
        LineView::Blank,
        at_pointer(Pointer::Arg),
        assign(Dest::A, Comp::M),
        assign(Dest::M, Comp::D),
        assign(Dest::D, Comp::A),
        at_pointer(Pointer::Sp),
        assign(Dest::M, Comp::DPlusOne),
        LineView::Blank,
        LineView::Address(SymbolView::Frame),
        assign(Dest::A, Comp::MMinusOne),
        assign(Dest::D, Comp::M),
        at_pointer(Pointer::That),
        assign(Dest::M, Comp::D),
    ];
    let block6 = restore_lines(2, Pointer::This);
    let block7 = restore_lines(3, Pointer::Arg);
    let block8 = restore_lines(4, Pointer::Lcl);
    let block9 = seq![
        LineView::Blank,
        LineView::Comment("goto retAddr"@),
        LineView::Address(SymbolView::ReturnTarget),
        assign(Dest::A, Comp::M),
    ];
    let last = seq![branch(Comp::Zero, Jump::Always)];
    let front = block1 + block2 + block3 + block4 + block5 + block6 + block7 + block8 + block9;
    assert(lines =~= front + last);
    assert(front.len() == 62);

    let s1 = effect(block1, s, table);
    assert(s1.ram == s.ram.write(frame, base) && s1.pc == s.pc + 5 && is_straight(block1)) by {
        reveal_with_fuel(effect_from, 7);
    }
    let s2 = effect(block2, s1, table);
    assert(s2.ram == s1.ram && s2.d == s.ram.read(base - 5) && s2.pc == s.pc + 11
        && is_straight(block2)) by {
        reveal_with_fuel(effect_from, 7);
    }
    let s3 = effect(block3, s2, table);
    assert(s3.ram == s2.ram.write(target, s.ram.read(base - 5)) && s3.pc == s.pc + 15
        && is_straight(block3)) by {
        reveal_with_fuel(effect_from, 5);
    }
    lemma_pop_effect(s3, table);
    let s4 = effect(block4, s3, table);
    assert(s4.d == value && s4.ram == s3.ram.write(0, sp - 1));
    let s5 = effect(block5, s4, table);
    assert(s5.ram == s4.ram.write(first, value).write(0, first + 1).write(4, s.ram.read(base - 1))
        && s5.pc == s.pc + 34 && is_straight(block5)) by {
        reveal_with_fuel(effect_from, 14);
    }
    lemma_restore(2, Pointer::This, base, s5, table);
    let s6 = effect(block6, s5, table);
    lemma_restore(3, Pointer::Arg, base, s6, table);
    let s7 = effect(block7, s6, table);
    lemma_restore(4, Pointer::Lcl, base, s7, table);
    let s8 = effect(block8, s7, table);
    let s9 = effect(block9, s8, table);
    assert(s9.ram == s8.ram && s9.a == s.ram.read(base - 5) && s9.pc == s.pc + 62
        && is_straight(block9)) by {
        reveal_with_fuel(effect_from, 5);
    }
    lemma_sequence(block1, block2, s, table);
    lemma_sequence(block1 + block2, block3, s, table);
    lemma_sequence(block1 + block2 + block3, block4, s, table);
    lemma_sequence(block1 + block2 + block3 + block4, block5, s, table);
    lemma_sequence(block1 + block2 + block3 + block4 + block5, block6, s, table);
    lemma_sequence(block1 + block2 + block3 + block4 + block5 + block6, block7, s, table);
    lemma_sequence(block1 + block2 + block3 + block4 + block5 + block6 + block7, block8, s, table);
    lemma_sequence(
        block1 + block2 + block3 + block4 + block5 + block6 + block7 + block8,
        block9,
        s,
        table,
    );
    assert(effect(front, s, table) == s9);
    assert forall|i: int| 0 <= i < 62 implies program[s.pc + i] == #[trigger] front[i] by {
        assert(lines[i] == front[i]);
    }
    lemma_run_straight(program, front, 0, s, table, 1);
    assert(run(program, s, table, 63) == run(program, s9, table, 1));
    assert(program[s.pc + 62] == lines[62]);
    let end = execute(lines[62], s9, table);
    assert(run(program, s9, table, 1) == end) by {
        reveal_with_fuel(run, 2);
    }
    assert(end.ram =~= s.ram.write(frame, base).write(target, s.ram.read(base - 5)).write(
        first,
        value,
    ).write(0, first + 1).write(4, s.ram.read(base - 1)).write(3, s.ram.read(base - 2)).write(
        2,
        s.ram.read(base - 3),
    ).write(1, s.ram.read(base - 4)));
}

/// A return puts the return value where the first argument was, moves the
/// stack pointer just above it, restores the caller's four pointer registers
/// from the saved frame, and transfers control to the saved return address.
/// Besides, only the two variables of the return sequence change. This holds
/// where the frame is in good order.
pub proof fn lemma_return(s: Machine, table: spec_fn(SymbolView) -> int)
    requires
        s.pc == 0,
        frame_in_order(s, table),
    ensures
        ({
            let lines = written_lines(return_lines());
            let end = run(lines, s, table, lines.len());
            let base = s.ram.read(pointer_address(Pointer::Lcl));
            let first = s.ram.read(pointer_address(Pointer::Arg));
            &&& end.pc == s.ram.read(base - 5)
            &&& end.ram == returned(s, table)
        }),
{
    let lines = written_lines(return_lines());
    assert(frame_word_lines(5).len() == 6);
    assert(restore_lines(2, Pointer::This).len() == 8);
    assert(lines.len() == return_length());
    lemma_return_within(lines, s, table);
}

/// A call and the return of the called function bring the caller back: the
/// return jumps to the return address that the call declared, the caller's
/// four pointer registers hold what they held before the call, and the
/// arguments on the stack are replaced by the return value. `callee` is the
/// machine when the function starts to return: whatever the function did, it
/// has left the saved frame and the registers `LCL` and `ARG` as the call set
/// them, and has pushed the return value. This holds where the arguments lie
/// on the stack, the stack has room for the frame, and the two variables of
/// the return sequence are different words above the registers and below the
/// stack.
#[verifier::rlimit(60)]
pub proof fn lemma_call_return(
    name: Seq<char>,
    n_args: u16,
    id: u16,
    caller: Machine,
    callee: Machine,
    table: spec_fn(SymbolView) -> int,
)
    requires
        caller.pc == 0,
        callee.pc == 0,
        256 + n_args <= stack_pointer(caller),
        stack_pointer(caller) + 5 < stack_pointer(callee) < word_size(),
        16 <= address_of(SymbolView::Frame, table) < 256,
        16 <= address_of(SymbolView::ReturnTarget, table) < 256,
        address_of(SymbolView::Frame, table) != address_of(SymbolView::ReturnTarget, table),
        ({
            let entered = run(
                written_lines(call_lines(name, n_args, id)),
                caller,
                table,
                (call_jump_index() + 1) as nat,
            );
            &&& callee.ram.read(pointer_address(Pointer::Lcl)) == entered.ram.read(
                pointer_address(Pointer::Lcl),
            )
            &&& callee.ram.read(pointer_address(Pointer::Arg)) == entered.ram.read(
                pointer_address(Pointer::Arg),
            )
            &&& forall|k: int|
                stack_pointer(caller) <= k < stack_pointer(caller) + 5 ==> callee.ram.read(k)
                    == entered.ram.read(k)
        }),
    ensures
        ({
            let end = run(
                written_lines(return_lines()),
                callee,
                table,
                written_lines(return_lines()).len(),
            );
            &&& end.pc == address_of(SymbolView::ReturnAddress(name, id), table)
            &&& end.ram.read(pointer_address(Pointer::Lcl)) == caller.ram.read(
                pointer_address(Pointer::Lcl),
            )
            &&& end.ram.read(pointer_address(Pointer::Arg)) == caller.ram.read(
                pointer_address(Pointer::Arg),
            )
            &&& end.ram.read(pointer_address(Pointer::This)) == caller.ram.read(
                pointer_address(Pointer::This),
            )
            &&& end.ram.read(pointer_address(Pointer::That)) == caller.ram.read(
                pointer_address(Pointer::That),
            )
            &&& stack_pointer(end) == stack_pointer(caller) - n_args + 1
            &&& stack_top(end) == stack_top(callee)
        }),
{
    let sp = stack_pointer(caller);
    lemma_call(name, n_args, id, caller, table);
    assert(word(sp - n_args) == sp - n_args);
    lemma_return(callee, table);
    assert(callee.ram.read(sp) == address_of(SymbolView::ReturnAddress(name, id), table));
    assert(callee.ram.read(sp + 1) == caller.ram.read(1));
    assert(callee.ram.read(sp + 2) == caller.ram.read(2));
    assert(callee.ram.read(sp + 3) == caller.ram.read(3));
    assert(callee.ram.read(sp + 4) == caller.ram.read(4));
}

/// The memory after `count` zeros were pushed.
pub open spec fn zeros_pushed(ram: Memory, count: nat) -> Memory
    decreases count,
{
    if count == 0 {
        ram
    } else {
        pushed(zeros_pushed(ram, (count - 1) as nat), 0)
    }
}

/// The lines of a function declaration are the entry label alone where the
/// function has no local variables, and one push of a zero more for each
/// local variable.
pub proof fn lemma_function_lines(name: Seq<char>, n_vars: u16)
    ensures
        function_lines(name, 0) == label_lines(name),
        function_lines(name, n_vars).len() == 2 + 11 * n_vars,
        n_vars > 0 ==> function_lines(name, n_vars) == function_lines(name, (n_vars - 1) as u16)
            + zero_push_lines(),
    decreases n_vars,
{
    assert(function_lines(name, 0) =~= label_lines(name));
    if n_vars > 0 {
        lemma_function_lines(name, (n_vars - 1) as u16);
        assert(function_lines(name, n_vars) =~= function_lines(name, (n_vars - 1) as u16)
            + zero_push_lines());
    }
}

/// A function declaration pushes one zero for each local variable, and does
/// nothing else. This holds where the stack lies above the registers and has
/// room for the local variables.
pub proof fn lemma_function(
    name: Seq<char>,
    n_vars: u16,
    s: Machine,
    table: spec_fn(SymbolView) -> int,
)
    requires
        s.pc == 0,
        16 <= stack_pointer(s),
        stack_pointer(s) + n_vars < word_size(),
    ensures
        ({
            let lines = written_lines(function_lines(name, n_vars));
            let end = run(lines, s, table, lines.len());
            &&& end.pc == lines.len()
            &&& end.ram == zeros_pushed(s.ram, n_vars as nat)
            &&& stack_pointer(end) == stack_pointer(s) + n_vars
            &&& forall|k: int|
                stack_pointer(s) <= k < stack_pointer(s) + n_vars ==> end.ram.read(k) == 0
            &&& forall|k: int|
                k != 0 && !(stack_pointer(s) <= k < stack_pointer(s) + n_vars) ==> end.ram.read(k)
                    == s.ram.read(k)
        }),
{
    lemma_function_effect(name, n_vars, s, table);
    lemma_written_effect(function_lines(name, n_vars), s, table);
    let lines = written_lines(function_lines(name, n_vars));
    lemma_run_straight(lines, lines, 0, s, table, 0);
}

#[verifier::rlimit(60)]
proof fn lemma_function_effect(
    name: Seq<char>,
    n_vars: u16,
    s: Machine,
    table: spec_fn(SymbolView) -> int,
)
    requires
        16 <= stack_pointer(s),
        stack_pointer(s) + n_vars < word_size(),
    ensures
        ({
            let lines = function_lines(name, n_vars);
            let end = effect(lines, s, table);
            &&& is_straight(lines)
            &&& end.pc == s.pc + lines.len()
            &&& end.ram == zeros_pushed(s.ram, n_vars as nat)
            &&& stack_pointer(end) == stack_pointer(s) + n_vars
            &&& forall|k: int|
                stack_pointer(s) <= k < stack_pointer(s) + n_vars ==> end.ram.read(k) == 0
            &&& forall|k: int|
                k != 0 && !(stack_pointer(s) <= k < stack_pointer(s) + n_vars) ==> end.ram.read(k)
                    == s.ram.read(k)
        }),
    decreases n_vars,
{
    lemma_function_lines(name, n_vars);
    if n_vars == 0 {
        reveal_with_fuel(effect_from, 3);
    } else {
        let before = function_lines(name, (n_vars - 1) as u16);
        lemma_function_effect(name, (n_vars - 1) as u16, s, table);
        let s1 = effect(before, s, table);
        let head = seq![LineView::Blank, at_number(0), assign(Dest::D, Comp::A)];
        let s2 = effect(head, s1, table);
        assert(s2.ram == s1.ram && s2.d == 0 && s2.pc == s1.pc + 3 && is_straight(head)) by {
            reveal_with_fuel(effect_from, 4);
        }
        lemma_then_push(head, s1, table, true);
        assert(zero_push_lines() =~= head + push_lines() + seq![LineView::Blank]);
        lemma_sequence(before, zero_push_lines(), s, table);
        let end = effect(function_lines(name, n_vars), s, table);
        assert(end.ram == pushed(s1.ram, 0));
        assert(zeros_pushed(s.ram, n_vars as nat) == pushed(
            zeros_pushed(s.ram, (n_vars - 1) as nat),
            0,
        ));
        assert(stack_pointer(s1) == stack_pointer(s) + n_vars - 1);
        assert(end.pc == s.pc + function_lines(name, n_vars).len());
        assert forall|k: int|
            stack_pointer(s) <= k < stack_pointer(s) + n_vars implies end.ram.read(k) == 0 by {
            if k < stack_pointer(s1) {
                assert(s1.ram.read(k) == 0);
            }
        }
    }
}

/// A label declaration does nothing but pass control on.
pub proof fn lemma_label(name: Seq<char>, s: Machine, table: spec_fn(SymbolView) -> int)
    requires
        s.pc == 0,
    ensures
        ({
            let lines = written_lines(label_lines(name));
            run(lines, s, table, lines.len()) == (Machine { pc: 1, ..s })
        }),
{
    reveal_with_fuel(run, 2);
    assert(written_lines(label_lines(name)) =~= seq![LineView::Label(SymbolView::Name(name))]);
}

/// A `goto` transfers control to the line that the label stands for, and
/// leaves the memory as it is.
pub proof fn lemma_goto(name: Seq<char>, s: Machine, table: spec_fn(SymbolView) -> int)
    requires
        s.pc == 0,
    ensures
        ({
            let lines = written_lines(goto_lines(name));
            let end = run(lines, s, table, lines.len());
            &&& end.pc == address_of(SymbolView::Name(name), table)
            &&& end.ram == s.ram
        }),
{
    reveal_with_fuel(run, 3);
    assert(written_lines(goto_lines(name)) =~= seq![
        LineView::Address(SymbolView::Name(name)),
        branch(Comp::Zero, Jump::Always),
    ]);
}

/// The number of lines of an `if-goto`.
pub open spec fn if_goto_length() -> int {
    10
}

/// The lines of an `if-goto`, standing in a program from the line that is
/// executed next, take the word from the top of the stack and transfer
/// control to the line that the label stands for where the word is not zero,
/// and to the line after the command where it is zero.
#[verifier::rlimit(60)]
pub proof fn lemma_if_goto_within(
    program: Seq<LineView>,
    name: Seq<char>,
    s: Machine,
    table: spec_fn(SymbolView) -> int,
)
    requires
        0 <= s.pc,
        s.pc + if_goto_length() <= program.len(),
        forall|i: int|
            0 <= i < if_goto_length() ==> program[s.pc + i] == #[trigger] written_lines(
                if_lines(name),
            )[i],
        word(stack_pointer(s) - 1) != 0,
    ensures
        ({
            let end = run(program, s, table, if_goto_length() as nat);
            &&& written_lines(if_lines(name)).len() == if_goto_length()
            &&& end.pc == if stack_top(s) != 0 {
                address_of(SymbolView::Name(name), table)
            } else {
                s.pc + if_goto_length()
            }
            &&& end.ram == popped(s.ram)
        }),
{
    let lines = written_lines(if_lines(name));
    let head = seq![named_comment(" if-goto "@, name)];
    let front = head + pop_lines();
    assert(is_straight(head));
    lemma_pop_effect(effect(head, s, table), table);
    lemma_sequence(head, pop_lines(), s, table);
    let s1 = effect(front, s, table);
    assert(s1.pc == s.pc + 7 && s1.ram == popped(s.ram) && s1.d == stack_top(s)) by {
        reveal_with_fuel(effect_from, 2);
    }
    assert(lines.len() == 10);
    assert forall|i: int| 0 <= i < 7 implies program[s.pc + i] == #[trigger] front[i] by {
        assert(lines[i] == front[i]);
    }
    lemma_run_straight(program, front, 0, s, table, 3);
    assert(program[s.pc + 7] == lines[7]);
    assert(program[s.pc + 8] == lines[8]);
    assert(program[s.pc + 9] == lines[9]);
    assert(run(program, s1, table, 3) == execute(
        lines[9],
        execute(lines[8], execute(lines[7], s1, table), table),
        table,
    )) by {
        reveal_with_fuel(run, 4);
    }
}

/// An `if-goto` takes the word from the top of the stack and transfers
/// control to the line that the label stands for where the word is not zero;
/// where it is zero, control passes on to the line after the command. The
/// stack shrinks by one word, and nothing else in memory changes. This holds
/// where the top of the stack is not the stack pointer itself.
pub proof fn lemma_if_goto(name: Seq<char>, s: Machine, table: spec_fn(SymbolView) -> int)
    requires
        s.pc == 0,
        word(stack_pointer(s) - 1) != 0,
    ensures
        ({
            let lines = written_lines(if_lines(name));
            let end = run(lines, s, table, lines.len());
            &&& end.pc == if stack_top(s) != 0 {
                address_of(SymbolView::Name(name), table)
            } else {
                lines.len() as int
            }
            &&& end.ram == popped(s.ram)
        }),
{
    let lines = written_lines(if_lines(name));
    assert(lines.len() == if_goto_length());
    lemma_if_goto_within(lines, name, s, table);
}

/// Whether a character is a full stop.
spec fn is_stop(c: char) -> bool {
    c == '.'
}

/// A name, a separator that ends in a full stop, and a number in decimal
/// make a text from which the name and the number can be told again.
proof fn lemma_numbered_names_apart(
    first: Seq<char>,
    i: u16,
    second: Seq<char>,
    j: u16,
    separator: Seq<char>,
)
    requires
        separator.len() > 0,
        is_stop(separator.last()),
        first + separator + decimal(i as nat) == second + separator + decimal(j as nat),
    ensures
        first == second,
        i == j,
{
    let a = first + separator + decimal(i as nat);
    let b = second + separator + decimal(j as nat);
    lemma_decimal_value(i as nat);
    lemma_decimal_value(j as nat);
    let n = separator.len() as int;
    assert(a.len() == first.len() + n + decimal(i as nat).len());
    assert(b.len() == second.len() + n + decimal(j as nat).len());
    if first.len() < second.len() {
        let at = second.len() + n - 1;
        assert(b[at] == separator.last());
        assert(a[at] == decimal(i as nat)[at - first.len() - n]);
        assert(is_digit(decimal(i as nat)[at - first.len() - n]));
        assert(false);
    }
    if second.len() < first.len() {
        let at = first.len() + n - 1;
        assert(a[at] == separator.last());
        assert(b[at] == decimal(j as nat)[at - second.len() - n]);
        assert(is_digit(decimal(j as nat)[at - second.len() - n]));
        assert(false);
    }
    assert(first =~= a.subrange(0, first.len() as int));
    assert(second =~= b.subrange(0, second.len() as int));
    assert(decimal(i as nat) =~= a.subrange(first.len() + n, a.len() as int));
    assert(decimal(j as nat) =~= b.subrange(second.len() + n, b.len() as int));
    lemma_decimal_injective(i as nat, j as nat);
}

/// The static variables of two source units have different names, and so
/// have two static variables of one source unit: the name of a static
/// variable tells its source unit and its index.
pub proof fn lemma_static_names_apart(first: Seq<char>, i: u16, second: Seq<char>, j: u16)
    requires
        first != second || i != j,
    ensures
        static_text(first, i) != static_text(second, j),
{
    reveal_strlit(".");
    if static_text(first, i) == static_text(second, j) {
        lemma_numbered_names_apart(first, i, second, j, "."@);
    }
}

/// The return addresses of two call sites have different names, whether the
/// call sites differ in the function called or in their number.
pub proof fn lemma_return_addresses_apart(first: Seq<char>, i: u16, second: Seq<char>, j: u16)
    requires
        first != second || i != j,
    ensures
        return_address_text(first, i) != return_address_text(second, j),
{
    reveal_strlit("$ret.");
    if return_address_text(first, i) == return_address_text(second, j) {
        lemma_numbered_names_apart(first, i, second, j, "$ret."@);
    }
}

/// The labels of two comparisons with different numbers have different
/// names: the two branch targets are named apart, and so are the two join
/// points.
pub proof fn lemma_comparison_labels_apart(i: u16, j: u16)
    requires
        i != j,
    ensures
        true_text(i) != true_text(j),
        push_text(i) != push_text(j),
{
    reveal_strlit("TRUE");
    reveal_strlit("PUSH");
    if true_text(i) == true_text(j) {
        assert(decimal(i as nat) =~= true_text(i).subrange(4, true_text(i).len() as int));
        assert(decimal(j as nat) =~= true_text(j).subrange(4, true_text(j).len() as int));
        lemma_decimal_injective(i as nat, j as nat);
    }
    if push_text(i) == push_text(j) {
        assert(decimal(i as nat) =~= push_text(i).subrange(4, push_text(i).len() as int));
        assert(decimal(j as nat) =~= push_text(j).subrange(4, push_text(j).len() as int));
        lemma_decimal_injective(i as nat, j as nat);
    }
}

/// The branch target of a comparison is never named like the join point of
/// a comparison, its own or another.
pub proof fn lemma_branch_and_join_apart(i: u16, j: u16)
    ensures
        true_text(i) != push_text(j),
{
    reveal_strlit("TRUE");
    reveal_strlit("PUSH");
    assert(true_text(i)[0] == 'T');
    assert(push_text(j)[0] == 'P');
}

} // verus!
