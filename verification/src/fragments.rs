//! Builders for the fragments that commands are lowered to.

use vstd::prelude::*;
use vstd::string::*;
use crate::assembly::{Comp, Dest, Fragment, Jump, Line, Pointer, Symbol, VariableRegister};
use crate::command::{Operation, Segment};
use crate::lowering::{
    arithmetic_lines, base_pointer, bootstrap_lines, call_lines, enter_frame_lines,
    frame_word_lines, function_lines, goto_lines, if_lines, infinity_loop_lines, label_lines,
    load_register_lines, named_comment, numbered_comment, operand_lines, operation_comment,
    operation_lines, operator, pop_lines, pop_segment_lines, push_lines, push_pointer_lines,
    push_segment_lines, repeat, restore_lines, return_lines, save_frame_lines, set_pointer_lines,
    store_through_lines, transfer_lines, zero_push_lines,
};
use crate::text::decimal_string;

verus! {

/// The comment that names something with a number.
pub fn numbered_comment_line(name: &str, n: u16) -> (line: Line)
    ensures
        line@ == numbered_comment(name@, n),
{
    let mut text = " ".to_owned();
    text.append(name);
    text.append(" ");
    text.append(decimal_string(n).as_str());
    Line::Comment(text)
}

/// The comment made of a notice and a name.
pub fn named_comment_line(notice: &str, name: &str) -> (line: Line)
    ensures
        line@ == named_comment(notice@, name@),
{
    let mut text = notice.to_owned();
    text.append(name);
    Line::Comment(text)
}

/// The lines that push `D`.
pub fn push_fragment() -> (f: Fragment)
    ensures
        f@ == push_lines(),
{
    let mut f = Fragment::new();
    f.blank();
    f.comment(" push");
    f.pointer(Pointer::Sp);
    f.assign(Dest::A, Comp::M);
    f.assign(Dest::M, Comp::D);
    f.pointer(Pointer::Sp);
    f.assign(Dest::M, Comp::MPlusOne);
    assert(f@ =~= push_lines());
    f
}

/// The lines that pop into `D`.
pub fn pop_fragment() -> (f: Fragment)
    ensures
        f@ == pop_lines(),
{
    let mut f = Fragment::new();
    f.blank();
    f.comment(" pop");
    f.pointer(Pointer::Sp);
    f.assign(Dest::M, Comp::MMinusOne);
    f.assign(Dest::A, Comp::M);
    f.assign(Dest::D, Comp::M);
    assert(f@ =~= pop_lines());
    f
}

/// The lines that store `D` in a scratch register.
pub fn load_register_fragment(r: VariableRegister) -> (f: Fragment)
    ensures
        f@ == load_register_lines(r),
{
    let mut f = Fragment::new();
    f.address(Symbol::Variable(r));
    f.assign(Dest::M, Comp::D);
    assert(f@ =~= load_register_lines(r));
    f
}

fn segment_pointer(segment: Segment) -> (p: Pointer)
    ensures
        p == base_pointer(segment),
{
    match segment {
        Segment::Local => Pointer::Lcl,
        Segment::Argument => Pointer::Arg,
        Segment::This => Pointer::This,
        _ => Pointer::That,
    }
}

/// The lines of `push segment index` in the source unit `unit`, or `None`
/// where the segment cannot be pushed from with this index.
pub fn push_segment_fragment(segment: Segment, index: u16, unit: &str) -> (r: Option<Fragment>)
    ensures
        match push_segment_lines(segment, index, unit@) {
            Some(lines) => r matches Some(f) && f@ == lines,
            None => r is None,
        },
{
    let mut f = Fragment::new();
    match segment {
        Segment::Constant => {
            f.push(numbered_comment_line("constant", index));
            f.number(index);
            f.assign(Dest::D, Comp::A);
            f.append(push_fragment());
        },
        Segment::Temp => {
            if index >= 8 {
                return None;
            }
            let address: u16 = index + 5;
            f.blank();
            f.push(numbered_comment_line("temp", address));
            f.number(address);
            f.assign(Dest::D, Comp::M);
            f.append(push_fragment());
            f.blank();
        },
        Segment::Pointer => {
            if index > 1 {
                return None;
            }
            f.blank();
            if index == 0 {
                f.push(numbered_comment_line("this", index));
                f.pointer(Pointer::This);
            } else {
                f.push(numbered_comment_line("that", index));
                f.pointer(Pointer::That);
            }
            f.assign(Dest::D, Comp::M);
            f.append(push_fragment());
            f.blank();
        },
        Segment::Static => {
            f.blank();
            f.push(numbered_comment_line("static", index));
            f.address(Symbol::Static(unit.to_owned(), index));
            f.blank();
            f.assign(Dest::D, Comp::M);
            f.append(push_fragment());
            f.blank();
        },
        _ => {
            f.blank();
            f.number(index);
            f.assign(Dest::D, Comp::A);
            f.push(numbered_comment_line(segment.name(), index));
            f.pointer(segment_pointer(segment));
            f.assign(Dest::A, Comp::DPlusM);
            f.assign(Dest::D, Comp::M);
            f.append(push_fragment());
            f.blank();
        },
    }
    assert(f@ =~= push_segment_lines(segment, index, unit@).unwrap());
    Some(f)
}

fn store_through_fragment(r: VariableRegister) -> (f: Fragment)
    ensures
        f@ == store_through_lines(r),
{
    let mut f = Fragment::new();
    f.blank();
    f.address(Symbol::Variable(r));
    f.assign(Dest::A, Comp::M);
    f.assign(Dest::M, Comp::D);
    assert(f@ =~= store_through_lines(r));
    f
}

/// The lines of `pop segment index` in the source unit `unit`, with `r` as
/// scratch register, or `None` where the segment cannot be popped to with
/// this index.
pub fn pop_segment_fragment(segment: Segment, index: u16, unit: &str, r: VariableRegister) -> (res:
    Option<Fragment>)
    ensures
        match pop_segment_lines(segment, index, unit@, r) {
            Some(lines) => res matches Some(f) && f@ == lines,
            None => res is None,
        },
{
    let mut f = Fragment::new();
    match segment {
        Segment::Constant => {
            return None;
        },
        Segment::Static => {
            f.blank();
            f.append(pop_fragment());
            f.blank();
            f.push(numbered_comment_line("static", index));
            f.address(Symbol::Static(unit.to_owned(), index));
            f.blank();
            f.assign(Dest::M, Comp::D);
        },
        Segment::Temp => {
            if index >= 8 {
                return None;
            }
            let address: u16 = index + 5;
            f.blank();
            f.push(numbered_comment_line("temp", address));
            f.number(address);
            f.assign(Dest::D, Comp::A);
            f.address(Symbol::Variable(r));
            f.assign(Dest::M, Comp::D);
            f.append(pop_fragment());
            f.append(store_through_fragment(r));
        },
        Segment::Pointer => {
            if index > 1 {
                return None;
            }
            f.blank();
            if index == 0 {
                f.push(numbered_comment_line("this", index));
                f.pointer(Pointer::This);
            } else {
                f.push(numbered_comment_line("that", index));
                f.pointer(Pointer::That);
            }
            f.assign(Dest::D, Comp::A);
            f.address(Symbol::Variable(r));
            f.assign(Dest::M, Comp::D);
            f.append(pop_fragment());
            f.append(store_through_fragment(r));
        },
        _ => {
            f.blank();
            f.number(index);
            f.assign(Dest::D, Comp::A);
            f.push(numbered_comment_line(segment.name(), index));
            f.pointer(segment_pointer(segment));
            f.assign(Dest::D, Comp::DPlusM);
            f.address(Symbol::Variable(r));
            f.assign(Dest::M, Comp::D);
            f.append(pop_fragment());
            f.append(store_through_fragment(r));
        },
    }
    assert(f@ =~= pop_segment_lines(segment, index, unit@, r).unwrap());
    Some(f)
}

/// The lines of `label name`.
pub fn label_fragment(name: &str) -> (f: Fragment)
    ensures
        f@ == label_lines(name@),
{
    let mut f = Fragment::new();
    f.blank();
    f.label(Symbol::Name(name.to_owned()));
    assert(f@ =~= label_lines(name@));
    f
}

/// The lines of `goto name`.
pub fn goto_fragment(name: &str) -> (f: Fragment)
    ensures
        f@ == goto_lines(name@),
{
    let mut f = Fragment::new();
    f.blank();
    f.address(Symbol::Name(name.to_owned()));
    f.jump(Comp::Zero, Jump::Always);
    assert(f@ =~= goto_lines(name@));
    f
}

/// The lines of `if-goto name`.
pub fn if_fragment(name: &str) -> (f: Fragment)
    ensures
        f@ == if_lines(name@),
{
    let mut f = Fragment::new();
    f.blank();
    f.push(named_comment_line(" if-goto ", name));
    f.append(pop_fragment());
    f.blank();
    f.address(Symbol::Name(name.to_owned()));
    f.jump(Comp::D, Jump::IfNotZero);
    assert(f@ =~= if_lines(name@));
    f
}

/// The lines that push one zero.
pub fn zero_push_fragment() -> (f: Fragment)
    ensures
        f@ == zero_push_lines(),
{
    let mut f = Fragment::new();
    f.blank();
    f.number(0);
    f.assign(Dest::D, Comp::A);
    f.append(push_fragment());
    f.blank();
    assert(f@ =~= zero_push_lines());
    f
}

/// The lines of `function name n_vars`.
pub fn function_fragment(name: &str, n_vars: u16) -> (f: Fragment)
    ensures
        f@ == function_lines(name@, n_vars),
{
    let mut f = label_fragment(name);
    if n_vars == 0 {
        assert(f@ =~= function_lines(name@, n_vars));
        return f;
    }
    let mut i: u16 = 0;
    assert(f@ =~= label_lines(name@) + repeat(zero_push_lines(), 0));
    while i < n_vars
        invariant
            i <= n_vars,
            f@ == label_lines(name@) + repeat(zero_push_lines(), i as nat),
        decreases n_vars - i,
    {
        f.append(zero_push_fragment());
        i += 1;
        assert(f@ =~= label_lines(name@) + repeat(zero_push_lines(), i as nat));
    }
    f
}

fn push_pointer_fragment(p: Pointer) -> (f: Fragment)
    ensures
        f@ == push_pointer_lines(p),
{
    let mut f = Fragment::new();
    f.blank();
    f.pointer(p);
    f.assign(Dest::D, Comp::M);
    f.append(push_fragment());
    f.blank();
    assert(f@ =~= push_pointer_lines(p));
    f
}

fn save_frame_fragment(name: &str, id: u16) -> (f: Fragment)
    ensures
        f@ == save_frame_lines(name@, id),
{
    let mut f = Fragment::new();
    f.blank();
    f.push(named_comment_line(" call function ", name));
    f.comment(" push returnAddress");
    f.address(Symbol::ReturnAddress(name.to_owned(), id));
    f.assign(Dest::D, Comp::A);
    f.append(push_fragment());
    f.blank();
    f.blank();
    f.append(push_pointer_fragment(Pointer::Lcl));
    f.blank();
    f.append(push_pointer_fragment(Pointer::Arg));
    f.blank();
    f.append(push_pointer_fragment(Pointer::This));
    f.blank();
    f.append(push_pointer_fragment(Pointer::That));
    f.blank();
    f.blank();
    assert(f@ =~= save_frame_lines(name@, id));
    f
}

fn enter_frame_fragment(n_args: u16) -> (f: Fragment)
    ensures
        f@ == enter_frame_lines(n_args),
{
    let mut f = Fragment::new();
    f.comment(" ARG=SP-5-nArgs");
    f.number(5);
    f.assign(Dest::D, Comp::A);
    f.number(n_args);
    f.assign(Dest::D, Comp::DPlusA);
    f.pointer(Pointer::Sp);
    f.assign(Dest::D, Comp::MMinusD);
    f.pointer(Pointer::Arg);
    f.assign(Dest::M, Comp::D);
    f.blank();
    f.comment(" LCL=SP");
    f.pointer(Pointer::Sp);
    f.assign(Dest::D, Comp::M);
    f.pointer(Pointer::Lcl);
    f.assign(Dest::M, Comp::D);
    f.blank();
    assert(f@ =~= enter_frame_lines(n_args));
    f
}

fn transfer_fragment(name: &str, id: u16) -> (f: Fragment)
    ensures
        f@ == transfer_lines(name@, id),
{
    let mut f = Fragment::new();
    f.push(named_comment_line(" goto function ", name));
    f.append(goto_fragment(name));
    f.blank();
    f.blank();
    f.label(Symbol::ReturnAddress(name.to_owned(), id));
    assert(f@ =~= transfer_lines(name@, id));
    f
}

/// The lines of `call name n_args` at the call site numbered `id`.
pub fn call_fragment(name: &str, n_args: u16, id: u16) -> (f: Fragment)
    ensures
        f@ == call_lines(name@, n_args, id),
{
    let mut f = save_frame_fragment(name, id);
    f.append(enter_frame_fragment(n_args));
    f.append(transfer_fragment(name, id));
    f
}

fn frame_word_fragment(offset: u16) -> (f: Fragment)
    ensures
        f@ == frame_word_lines(offset),
{
    let mut f = Fragment::new();
    f.blank();
    f.number(offset);
    f.assign(Dest::D, Comp::A);
    f.address(Symbol::Frame);
    f.assign(Dest::A, Comp::MMinusD);
    f.assign(Dest::D, Comp::M);
    assert(f@ =~= frame_word_lines(offset));
    f
}

fn restore_fragment(offset: u16, p: Pointer) -> (f: Fragment)
    ensures
        f@ == restore_lines(offset, p),
{
    let mut f = frame_word_fragment(offset);
    f.pointer(p);
    f.assign(Dest::M, Comp::D);
    assert(f@ =~= restore_lines(offset, p));
    f
}

/// The lines of `return`.
pub fn return_fragment() -> (f: Fragment)
    ensures
        f@ == return_lines(),
{
    let mut f = Fragment::new();
    f.blank();
    f.comment(" return");
    f.pointer(Pointer::Lcl);
    f.assign(Dest::D, Comp::M);
    f.address(Symbol::Frame);
    f.assign(Dest::M, Comp::D);
    f.append(frame_word_fragment(5));
    f.address(Symbol::ReturnTarget);
    f.assign(Dest::M, Comp::D);
    f.blank();
    f.comment(" pop to ARG");
    f.append(pop_fragment());
    f.blank();
    f.pointer(Pointer::Arg);
    f.assign(Dest::A, Comp::M);
    f.assign(Dest::M, Comp::D);
    f.assign(Dest::D, Comp::A);
    f.pointer(Pointer::Sp);
    f.assign(Dest::M, Comp::DPlusOne);
    f.blank();
    f.address(Symbol::Frame);
    f.assign(Dest::A, Comp::MMinusOne);
    f.assign(Dest::D, Comp::M);
    f.pointer(Pointer::That);
    f.assign(Dest::M, Comp::D);
    f.append(restore_fragment(2, Pointer::This));
    f.append(restore_fragment(3, Pointer::Arg));
    f.append(restore_fragment(4, Pointer::Lcl));
    f.blank();
    f.comment("goto retAddr");
    f.address(Symbol::ReturnTarget);
    f.assign(Dest::A, Comp::M);
    f.jump(Comp::Zero, Jump::Always);
    assert(f@ =~= return_lines());
    f
}

fn set_pointer_fragment(address: u16, p: Pointer) -> (f: Fragment)
    ensures
        f@ == set_pointer_lines(address, p),
{
    let mut f = Fragment::new();
    f.number(address);
    f.assign(Dest::D, Comp::A);
    f.pointer(p);
    f.assign(Dest::M, Comp::D);
    assert(f@ =~= set_pointer_lines(address, p));
    f
}

/// The lines that every program begins with.
pub fn bootstrap_fragment(id: u16) -> (f: Fragment)
    ensures
        f@ == bootstrap_lines(id),
{
    let mut f = Fragment::new();
    f.blank();
    f.comment(" bootstrap     ");
    f.append(set_pointer_fragment(256, Pointer::Sp));
    f.append(call_fragment("Sys.init", 0, id));
    f.blank();
    assert(f@ =~= bootstrap_lines(id));
    f
}

/// The lines that every program ends with.
pub fn infinity_loop_fragment(has_end_label: bool) -> (f: Fragment)
    ensures
        f@ == infinity_loop_lines(has_end_label),
{
    let mut f = Fragment::new();
    if has_end_label {
        f.blank();
    } else {
        f.label(Symbol::End);
    }
    f.address(Symbol::End);
    f.jump(Comp::Zero, Jump::Always);
    assert(f@ =~= infinity_loop_lines(has_end_label));
    f
}

/// The line that computes an operation.
pub fn operator_line(op: Operation) -> (line: Line)
    ensures
        line@ == operator(op),
{
    match op {
        Operation::Add => Line::Compute(Dest::D, Comp::DPlusM, Jump::Never),
        Operation::Sub => Line::Compute(Dest::D, Comp::DMinusM, Jump::Never),
        Operation::Neg => Line::Compute(Dest::D, Comp::NegM, Jump::Never),
        Operation::Eq => Line::Compute(Dest::Nowhere, Comp::D, Jump::IfZero),
        Operation::Gt => Line::Compute(Dest::Nowhere, Comp::D, Jump::IfPositive),
        Operation::Lt => Line::Compute(Dest::Nowhere, Comp::D, Jump::IfNegative),
        Operation::And => Line::Compute(Dest::D, Comp::DAndM, Jump::Never),
        Operation::Or => Line::Compute(Dest::D, Comp::DOrM, Jump::Never),
        Operation::Not => Line::Compute(Dest::D, Comp::NotM, Jump::Never),
    }
}

/// The comment that names an operation.
pub fn operation_comment_line(op: Operation) -> (line: Line)
    ensures
        line@ == operation_comment(op),
{
    let mut text = " ".to_owned();
    text.append(op.name());
    Line::Comment(text)
}

/// The lines from which the code of an operation is made.
pub fn operation_fragment(op: Operation, r: VariableRegister, id: u16) -> (f: Fragment)
    ensures
        f@ == operation_lines(op, r, id),
{
    let mut f = Fragment::new();
    match op {
        Operation::Eq | Operation::Gt | Operation::Lt => {
            f.blank();
            f.address(Symbol::Variable(r));
            f.assign(Dest::D, Comp::DMinusM);
            f.address(Symbol::True(id));
            f.push(operation_comment_line(op));
            f.push(operator_line(op));
            f.assign(Dest::D, Comp::Zero);
            f.address(Symbol::Push(id));
            f.jump(Comp::Zero, Jump::Always);
            f.label(Symbol::True(id));
            f.assign(Dest::D, Comp::MinusOne);
            f.label(Symbol::Push(id));
        },
        Operation::And | Operation::Or | Operation::Not => {
            let mut note = " ".to_owned();
            note.append(op.name());
            f.blank();
            f.push(Line::IndentedAddress(Symbol::Variable(r)));
            f.push(Line::IndentedComment(note));
            f.push(operator_line(op));
            f.push(Line::Indentation);
        },
        _ => {
            f.address(Symbol::Variable(r));
            f.push(operation_comment_line(op));
            f.push(operator_line(op));
        },
    }
    assert(f@ =~= operation_lines(op, r, id));
    f
}

/// The lines that pop the operands of an operation.
pub fn operand_fragment(unary: bool, r: VariableRegister) -> (f: Fragment)
    ensures
        f@ == operand_lines(unary, r),
{
    let mut f = pop_fragment();
    f.blank();
    f.append(load_register_fragment(r));
    if !unary {
        f.append(pop_fragment());
    }
    f.blank();
    assert(f@ =~= operand_lines(unary, r));
    f
}

/// The lines that an arithmetic command stands for in the output.
pub fn arithmetic_fragment(op: Operation, r: VariableRegister, id: u16) -> (f: Fragment)
    ensures
        f@ == arithmetic_lines(op, r, id),
{
    let mut f = operand_fragment(op.is_unary(), r).written();
    f.append(operation_fragment(op, r, id).written());
    match op {
        Operation::Eq | Operation::Gt | Operation::Lt => {
            f.blank();
        },
        _ => {},
    }
    f.append(push_fragment());
    assert(f@ =~= arithmetic_lines(op, r, id));
    f
}

} // verus!
