//! A function that calls itself, and what its lines do on the target machine:
//! every call returns to the line after it, with the caller's frame intact,
//! however deep the recursion goes.

use vstd::prelude::*;
use crate::assembly::{LineView, Pointer, SymbolView, VariableRegister, written_lines};
use crate::code_writer::command_lines;
use crate::command::{CommandView, Operation, Segment};
use crate::correctness::{
    call_length, computed, frame_entered, frame_in_order, if_goto_length, lemma_arithmetic_effect,
    lemma_call_within, lemma_if_goto_within, lemma_push_segment, lemma_return_within, popped,
    pushed, return_length, returned, stack_pointer, stack_top,
};
use crate::lowering::{
    arithmetic_lines, call_lines, enter_frame_lines, frame_word_lines, function_lines, if_lines,
    label_lines, operand_lines, operation_lines, pop_lines, push_lines, push_pointer_lines,
    push_segment_lines, restore_lines, return_lines, save_frame_lines, transfer_lines,
};
use crate::machine::{
    Machine, Memory, address_of, effect, execute, lemma_run_add, lemma_run_straight,
    pointer_address, run, word_size,
};

verus! {

/// The commands of a function that counts down: where its argument is zero
/// it returns zero, and else it calls itself with the argument less one and
/// returns what that call returns.
pub open spec fn countdown_commands(name: Seq<char>, again: Seq<char>) -> Seq<CommandView> {
    seq![
        CommandView::Function(name, 0),
        CommandView::Push(Segment::Argument, 0),
        CommandView::IfGoto(again),
        CommandView::Push(Segment::Constant, 0),
        CommandView::Return,
        CommandView::Label(again),
        CommandView::Push(Segment::Argument, 0),
        CommandView::Push(Segment::Constant, 1),
        CommandView::Arithmetic(Operation::Sub),
        CommandView::Call(name, 1),
        CommandView::Return,
    ]
}

/// The lines that the commands from index `from` on stand for, one command
/// after the other, all at the number `id`.
pub open spec fn lines_of(commands: Seq<CommandView>, from: int, unit: Seq<char>, id: u16) -> Seq<
    LineView,
>
    decreases commands.len() - from,
{
    if from < 0 || from >= commands.len() {
        Seq::empty()
    } else {
        let first = match command_lines(commands[from], unit, id) {
            Some(lines) => lines,
            None => Seq::empty(),
        };
        first + lines_of(commands, from + 1, unit, id)
    }
}

/// The lines of the function that counts down, as the generator writes them.
pub open spec fn countdown_lines(
    name: Seq<char>,
    again: Seq<char>,
    unit: Seq<char>,
    id: u16,
) -> Seq<LineView> {
    lines_of(countdown_commands(name, again), 0, unit, id)
}

/// The index of the line that declares the function.
pub open spec fn entry_index() -> int {
    0
}

/// The index of the line that declares the label of the branch that calls
/// again.
pub open spec fn again_index() -> int {
    98
}

/// The index of the line that declares the return address of the call.
pub open spec fn resume_index() -> int {
    232
}

/// The number of lines that are executed from the entry of the function to
/// its return, the calls within counted in, for the argument `n`.
pub open spec fn countdown_steps(n: nat) -> nat
    decreases n,
{
    if n == 0 {
        98
    } else {
        221 + countdown_steps((n - 1) as nat)
    }
}

/// Whether the assembler's table places the three labels of the function at
/// the lines that declare them, and the two variables of the return
/// sequence at different words above the registers and below the stack.
pub open spec fn countdown_table(
    name: Seq<char>,
    again: Seq<char>,
    id: u16,
    table: spec_fn(SymbolView) -> int,
) -> bool {
    &&& address_of(SymbolView::Name(name), table) == entry_index()
    &&& address_of(SymbolView::Name(again), table) == again_index()
    &&& address_of(SymbolView::ReturnAddress(name, id), table) == resume_index()
    &&& 16 <= address_of(SymbolView::Frame, table) < 256
    &&& 16 <= address_of(SymbolView::ReturnTarget, table) < 256
    &&& address_of(SymbolView::Frame, table) != address_of(SymbolView::ReturnTarget, table)
}

/// Whether a machine has just entered the function with the argument `n`:
/// control is at the entry, the frame of the call lies below the stack
/// pointer, `LCL` points at the top of the stack and `ARG` at the argument,
/// which lies on the stack, and the stack has room for the calls to come.
pub open spec fn countdown_entered(s: Machine, n: nat) -> bool {
    let sp = stack_pointer(s);
    &&& s.pc == entry_index()
    &&& 256 + 6 <= sp
    &&& sp + 6 * n + 6 < word_size()
    &&& s.ram.read(pointer_address(Pointer::Lcl)) == sp
    &&& s.ram.read(pointer_address(Pointer::Arg)) == sp - 6
    &&& s.ram.read(sp - 6) == n
}

/// Where the pieces of the function stand in its lines.
#[verifier::rlimit(100)]
proof fn lemma_countdown_layout(name: Seq<char>, again: Seq<char>, unit: Seq<char>, id: u16)
    ensures
        ({
            let program = countdown_lines(name, again, unit, id);
            let push_argument = written_lines(
                push_segment_lines(Segment::Argument, 0, unit).unwrap(),
            );
            let push_zero = written_lines(push_segment_lines(Segment::Constant, 0, unit).unwrap());
            let push_one = written_lines(push_segment_lines(Segment::Constant, 1, unit).unwrap());
            let sub = arithmetic_lines(Operation::Sub, VariableRegister::R13, id);
            &&& program.len() == 296
            &&& program[entry_index()] == LineView::Label(SymbolView::Name(name))
            &&& program[again_index()] == LineView::Label(SymbolView::Name(again))
            &&& program[resume_index()] == LineView::Label(SymbolView::ReturnAddress(name, id))
            &&& push_argument.len() == 14
            &&& push_zero.len() == 10
            &&& push_one.len() == 10
            &&& sub.len() == 25
            &&& forall|i: int| 0 <= i < 14 ==> program[1 + i] == #[trigger] push_argument[i]
            &&& forall|i: int|
                0 <= i < if_goto_length() ==> program[15 + i] == #[trigger] written_lines(
                    if_lines(again),
                )[i]
            &&& forall|i: int| 0 <= i < 10 ==> program[25 + i] == #[trigger] push_zero[i]
            &&& forall|i: int|
                0 <= i < return_length() ==> program[35 + i] == #[trigger] written_lines(
                    return_lines(),
                )[i]
            &&& forall|i: int| 0 <= i < 14 ==> program[99 + i] == #[trigger] push_argument[i]
            &&& forall|i: int| 0 <= i < 10 ==> program[113 + i] == #[trigger] push_one[i]
            &&& forall|i: int| 0 <= i < 25 ==> program[123 + i] == #[trigger] sub[i]
            &&& forall|i: int|
                0 <= i < call_length() ==> program[148 + i] == #[trigger] written_lines(
                    call_lines(name, 1, id),
                )[i]
            &&& forall|i: int|
                0 <= i < return_length() ==> program[233 + i] == #[trigger] written_lines(
                    return_lines(),
                )[i]
        }),
{
    let commands = countdown_commands(name, again);
    let program = countdown_lines(name, again, unit, id);
    let b0 = written_lines(function_lines(name, 0));
    let b1 = written_lines(push_segment_lines(Segment::Argument, 0, unit).unwrap());
    let b2 = written_lines(if_lines(again));
    let b3 = written_lines(push_segment_lines(Segment::Constant, 0, unit).unwrap());
    let b4 = written_lines(return_lines());
    let b5 = written_lines(label_lines(again));
    let b7 = written_lines(push_segment_lines(Segment::Constant, 1, unit).unwrap());
    let b8 = arithmetic_lines(Operation::Sub, VariableRegister::R13, id);
    let b9 = written_lines(call_lines(name, 1, id));
    reveal_with_fuel(lines_of, 12);
    assert(program =~= b0 + b1 + b2 + b3 + b4 + b5 + b1 + b7 + b8 + b9 + b4);
    assert(push_lines().len() == 7);
    assert(pop_lines().len() == 6);
    assert(function_lines(name, 0) =~= label_lines(name));
    assert(b0.len() == 1);
    assert(b1.len() == 14);
    assert(b2.len() == 10);
    assert(b3.len() == 10);
    assert(frame_word_lines(5).len() == 6);
    assert(restore_lines(2, Pointer::This).len() == 8);
    assert(restore_lines(3, Pointer::Arg).len() == 8);
    assert(restore_lines(4, Pointer::Lcl).len() == 8);
    assert(b4.len() == 63);
    assert(b5.len() == 1);
    assert(b7.len() == 10);
    assert(operand_lines(false, VariableRegister::R13).len() == 16);
    assert(operation_lines(Operation::Sub, VariableRegister::R13, id).len() == 3);
    assert(b8.len() == 25);
    assert(push_pointer_lines(Pointer::Lcl).len() == 11);
    assert(push_pointer_lines(Pointer::Arg).len() == 11);
    assert(push_pointer_lines(Pointer::This).len() == 11);
    assert(push_pointer_lines(Pointer::That).len() == 11);
    assert(save_frame_lines(name, id).len() == 63);
    assert(enter_frame_lines(1).len() == 16);
    assert(transfer_lines(name, id).len() == 7);
    assert(b9.len() == 85);
    assert(b9[84] == LineView::Label(SymbolView::ReturnAddress(name, id)));
    assert(b0[0] == LineView::Label(SymbolView::Name(name)));
    assert(b5[0] == LineView::Label(SymbolView::Name(again)));
}

/// Whether two memories hold the same words on the stack below `limit`.
pub open spec fn same_below(a: Memory, b: Memory, limit: int) -> bool {
    forall|k: int| 256 <= k < limit ==> #[trigger] a.read(k) == b.read(k)
}

/// From the entry to the branch: the argument is pushed and popped again,
/// and control goes to the branch that calls again where the argument is not
/// zero.
#[verifier::rlimit(100)]
proof fn lemma_countdown_start(
    n: nat,
    name: Seq<char>,
    again: Seq<char>,
    unit: Seq<char>,
    id: u16,
    s: Machine,
    table: spec_fn(SymbolView) -> int,
)
    requires
        countdown_table(name, again, id, table),
        countdown_entered(s, n),
    ensures
        ({
            let program = countdown_lines(name, again, unit, id);
            let t = run(program, s, table, 25);
            &&& t.pc == if n != 0 {
                again_index()
            } else {
                25
            }
            &&& t.ram == popped(pushed(s.ram, n as int))
        }),
{
    let program = countdown_lines(name, again, unit, id);
    lemma_countdown_layout(name, again, unit, id);
    let push_argument = written_lines(push_segment_lines(Segment::Argument, 0, unit).unwrap());
    let t1 = execute(program[0], s, table);
    assert(run(program, s, table, 1) == t1) by {
        reveal_with_fuel(run, 2);
    }
    lemma_push_segment(Segment::Argument, 0, unit, t1, table);
    lemma_run_straight(program, push_argument, 0, t1, table, 0);
    let t2 = effect(push_argument, t1, table);
    assert(run(program, t1, table, 14) == t2);
    assert(t2.pc == 15);
    assert(t2.ram == pushed(s.ram, n as int));
    lemma_if_goto_within(program, again, t2, table);
    lemma_run_add(program, s, table, 1, 14);
    lemma_run_add(program, s, table, 15, 10);
}

/// From the line after a call, or after the return value was pushed, to the
/// caller: the return that stands at the line executed next puts the return
/// value in place and restores the registers from the frame.
#[verifier::rlimit(100)]
proof fn lemma_countdown_return(
    name: Seq<char>,
    again: Seq<char>,
    unit: Seq<char>,
    id: u16,
    t: Machine,
    table: spec_fn(SymbolView) -> int,
    sp: int,
)
    requires
        countdown_table(name, again, id, table),
        t.pc == 35 || t.pc == 233,
        stack_pointer(t) == sp + 1,
        256 + 6 <= sp,
        sp + 6 < word_size(),
        t.ram.read(pointer_address(Pointer::Lcl)) == sp,
        t.ram.read(pointer_address(Pointer::Arg)) == sp - 6,
    ensures
        ({
            let program = countdown_lines(name, again, unit, id);
            let end = run(program, t, table, return_length() as nat);
            &&& end.pc == t.ram.read(sp - 5)
            &&& stack_pointer(end) == sp - 5
            &&& end.ram.read(sp - 6) == t.ram.read(sp)
            &&& end.ram.read(pointer_address(Pointer::Lcl)) == t.ram.read(sp - 4)
            &&& end.ram.read(pointer_address(Pointer::Arg)) == t.ram.read(sp - 3)
            &&& end.ram.read(pointer_address(Pointer::This)) == t.ram.read(sp - 2)
            &&& end.ram.read(pointer_address(Pointer::That)) == t.ram.read(sp - 1)
            &&& same_below(end.ram, t.ram, sp - 6)
        }),
{
    let program = countdown_lines(name, again, unit, id);
    lemma_countdown_layout(name, again, unit, id);
    assert(frame_in_order(t, table));
    lemma_return_within(program, t, table);
    let end = run(program, t, table, return_length() as nat);
    assert(end.ram == returned(t, table));
    assert(stack_top(t) == t.ram.read(sp));
}

/// From the branch that calls again to the entry of the next call: the
/// argument less one is pushed, the frame is saved above it, and control is
/// at the entry again.
#[verifier::rlimit(100)]
proof fn lemma_countdown_descend(
    n: nat,
    name: Seq<char>,
    again: Seq<char>,
    unit: Seq<char>,
    id: u16,
    t: Machine,
    table: spec_fn(SymbolView) -> int,
    sp: int,
)
    requires
        n >= 1,
        countdown_table(name, again, id, table),
        t.pc == again_index(),
        stack_pointer(t) == sp,
        256 + 6 <= sp,
        sp + 6 * n + 6 < word_size(),
        t.ram.read(pointer_address(Pointer::Lcl)) == sp,
        t.ram.read(pointer_address(Pointer::Arg)) == sp - 6,
        t.ram.read(sp - 6) == n,
    ensures
        ({
            let program = countdown_lines(name, again, unit, id);
            let u = run(program, t, table, 132);
            &&& countdown_entered(u, (n - 1) as nat)
            &&& stack_pointer(u) == sp + 6
            &&& u.ram.read(sp + 1) == resume_index()
            &&& u.ram.read(sp + 2) == sp
            &&& u.ram.read(sp + 3) == sp - 6
            &&& u.ram.read(sp + 4) == t.ram.read(pointer_address(Pointer::This))
            &&& u.ram.read(sp + 5) == t.ram.read(pointer_address(Pointer::That))
            &&& same_below(u.ram, t.ram, sp)
        }),
{
    let program = countdown_lines(name, again, unit, id);
    lemma_countdown_layout(name, again, unit, id);
    let push_argument = written_lines(push_segment_lines(Segment::Argument, 0, unit).unwrap());
    let push_one = written_lines(push_segment_lines(Segment::Constant, 1, unit).unwrap());
    let sub = arithmetic_lines(Operation::Sub, VariableRegister::R13, id);
    let t1 = execute(program[again_index()], t, table);
    assert(run(program, t, table, 1) == t1) by {
        reveal_with_fuel(run, 2);
    }
    lemma_push_segment(Segment::Argument, 0, unit, t1, table);
    lemma_run_straight(program, push_argument, 0, t1, table, 0);
    let t2 = effect(push_argument, t1, table);
    assert(run(program, t1, table, 14) == t2);
    assert(t2.pc == 113 && t2.ram == pushed(t.ram, n as int));
    lemma_push_segment(Segment::Constant, 1, unit, t2, table);
    lemma_run_straight(program, push_one, 0, t2, table, 0);
    let t3 = effect(push_one, t2, table);
    assert(run(program, t2, table, 10) == t3);
    assert(t3.pc == 123 && t3.ram == pushed(t2.ram, 1));
    assert(stack_pointer(t3) == sp + 2);
    lemma_arithmetic_effect(Operation::Sub, id, t3, table);
    lemma_run_straight(program, sub, 0, t3, table, 0);
    let t4 = effect(sub, t3, table);
    assert(run(program, t3, table, 25) == t4);
    assert(t4.pc == 148 && t4.ram == computed(Operation::Sub, t3.ram));
    assert(stack_pointer(t4) == sp + 1);
    assert(t4.ram.read(sp) == n - 1);
    lemma_call_within(program, name, 1, id, t4, table);
    let u = run(program, t4, table, 82);
    assert(u.ram == frame_entered(t4.ram, resume_index(), 1));
    lemma_run_add(program, t, table, 1, 14);
    lemma_run_add(program, t, table, 15, 10);
    lemma_run_add(program, t, table, 25, 25);
    lemma_run_add(program, t, table, 50, 82);
    assert(run(program, t, table, 132) == u);
}

/// A function that calls itself returns to its caller however deep the
/// recursion goes. The function counts down: entered with the argument `n`,
/// it calls itself `n` times, each call within the one before. Every one of
/// these calls returns to the line after it with the registers of its caller
/// restored, and so at last the first call returns to the address that its
/// caller saved: the four pointer registers hold what the frame of that call
/// holds, the return value zero stands where the argument stood with the
/// stack pointer just above it, and the stack below is as it was. This holds
/// where the labels stand for the lines that declare them and the stack has
/// room for the frames.
#[verifier::rlimit(100)]
pub proof fn lemma_countdown(
    n: nat,
    name: Seq<char>,
    again: Seq<char>,
    unit: Seq<char>,
    id: u16,
    s: Machine,
    table: spec_fn(SymbolView) -> int,
)
    requires
        countdown_table(name, again, id, table),
        countdown_entered(s, n),
    ensures
        ({
            let program = countdown_lines(name, again, unit, id);
            let end = run(program, s, table, countdown_steps(n));
            let sp = stack_pointer(s);
            &&& end.pc == s.ram.read(sp - 5)
            &&& stack_pointer(end) == sp - 5
            &&& stack_top(end) == 0
            &&& end.ram.read(pointer_address(Pointer::Lcl)) == s.ram.read(sp - 4)
            &&& end.ram.read(pointer_address(Pointer::Arg)) == s.ram.read(sp - 3)
            &&& end.ram.read(pointer_address(Pointer::This)) == s.ram.read(sp - 2)
            &&& end.ram.read(pointer_address(Pointer::That)) == s.ram.read(sp - 1)
            &&& same_below(end.ram, s.ram, sp - 6)
        }),
    decreases n,
{
    let program = countdown_lines(name, again, unit, id);
    let sp = stack_pointer(s);
    lemma_countdown_layout(name, again, unit, id);
    lemma_countdown_start(n, name, again, unit, id, s, table);
    let t = run(program, s, table, 25);
    assert(stack_pointer(t) == sp);
    assert(same_below(t.ram, s.ram, sp));
    if n == 0 {
        let push_zero = written_lines(push_segment_lines(Segment::Constant, 0, unit).unwrap());
        lemma_push_segment(Segment::Constant, 0, unit, t, table);
        lemma_run_straight(program, push_zero, 0, t, table, 0);
        let t1 = effect(push_zero, t, table);
        assert(run(program, t, table, 10) == t1);
        assert(t1.pc == 35 && t1.ram == pushed(t.ram, 0));
        lemma_countdown_return(name, again, unit, id, t1, table, sp);
        let end = run(program, t1, table, return_length() as nat);
        lemma_run_add(program, s, table, 25, 10);
        lemma_run_add(program, s, table, 35, 63);
        assert(run(program, s, table, countdown_steps(n)) == end);
        assert(same_below(end.ram, s.ram, sp - 6)) by {
            assert forall|k: int| 256 <= k < sp - 6 implies #[trigger] end.ram.read(k)
                == s.ram.read(k) by {
                assert(t1.ram.read(k) == s.ram.read(k));
            }
        }
    } else {
        let m = (n - 1) as nat;
        lemma_countdown_descend(n, name, again, unit, id, t, table, sp);
        let u = run(program, t, table, 132);
        lemma_countdown(m, name, again, unit, id, u, table);
        let v = run(program, u, table, countdown_steps(m));
        assert(v.pc == resume_index());
        let w = execute(program[resume_index()], v, table);
        assert(run(program, v, table, 1) == w) by {
            reveal_with_fuel(run, 2);
        }
        assert(w.pc == 233 && w.ram == v.ram);
        assert(u.ram.read(sp - 5) == s.ram.read(sp - 5));
        assert(v.ram.read(sp - 5) == u.ram.read(sp - 5));
        assert(v.ram.read(sp - 4) == u.ram.read(sp - 4));
        assert(v.ram.read(sp - 3) == u.ram.read(sp - 3));
        assert(v.ram.read(sp - 2) == u.ram.read(sp - 2));
        assert(v.ram.read(sp - 1) == u.ram.read(sp - 1));
        lemma_countdown_return(name, again, unit, id, w, table, sp);
        let end = run(program, w, table, return_length() as nat);
        lemma_run_add(program, s, table, 25, 132);
        lemma_run_add(program, s, table, 157, countdown_steps(m));
        lemma_run_add(program, s, table, 157 + countdown_steps(m), 1);
        lemma_run_add(program, s, table, 158 + countdown_steps(m), 63);
        assert(countdown_steps(n) == 221 + countdown_steps(m));
        assert(run(program, s, table, countdown_steps(n)) == end);
        assert(same_below(end.ram, s.ram, sp - 6)) by {
            assert forall|k: int| 256 <= k < sp - 6 implies #[trigger] end.ram.read(k)
                == s.ram.read(k) by {
                assert(w.ram.read(k) == u.ram.read(k));
                assert(u.ram.read(k) == t.ram.read(k));
                assert(t.ram.read(k) == s.ram.read(k));
            }
        }
    }
}

} // verus!
