//! What each command is lowered to: the lines of assembly that stand for it.

use vstd::prelude::*;
use crate::assembly::{
    Comp, Dest, Jump, LineView, Pointer, SymbolView, VariableRegister, begins_visible, join,
    lemma_join_render, lemma_lines_flush, lemma_render_concat, lemma_rendered_flush, line_text,
    render, written_lines,
};
use crate::indent::{is_flush, without_leading_break};
use crate::command::{Operation, Segment, is_unary, operation_name, segment_name};
use crate::text::decimal;

verus! {

/// The line `dest=comp`.
pub open spec fn assign(dest: Dest, comp: Comp) -> LineView {
    LineView::Compute(dest, comp, Jump::Never)
}

/// The line `comp;jump`.
pub open spec fn branch(comp: Comp, jump: Jump) -> LineView {
    LineView::Compute(Dest::Nowhere, comp, jump)
}

/// The line that loads the address of a pointer register.
pub open spec fn at_pointer(p: Pointer) -> LineView {
    LineView::Address(SymbolView::Pointer(p))
}

/// The line that loads a number.
pub open spec fn at_number(n: u16) -> LineView {
    LineView::Address(SymbolView::Number(n))
}

/// The line that loads the address of a scratch register.
pub open spec fn at_register(r: VariableRegister) -> LineView {
    LineView::Address(SymbolView::Variable(r))
}

/// The comment that names a segment, or anything else, with a number.
pub open spec fn numbered_comment(name: Seq<char>, n: u16) -> LineView {
    LineView::Comment(" "@ + name + " "@ + decimal(n as nat))
}

/// The comment made of a notice and a name from the source program.
pub open spec fn named_comment(notice: Seq<char>, name: Seq<char>) -> LineView {
    LineView::Comment(notice + name)
}

/// Stores `D` at the top of the stack and moves the stack pointer up.
pub open spec fn push_lines() -> Seq<LineView> {
    seq![
        LineView::Blank,
        LineView::Comment(" push"@),
        at_pointer(Pointer::Sp),
        assign(Dest::A, Comp::M),
        assign(Dest::M, Comp::D),
        at_pointer(Pointer::Sp),
        assign(Dest::M, Comp::MPlusOne),
    ]
}

/// Moves the stack pointer down and loads the word it then points at into `D`.
pub open spec fn pop_lines() -> Seq<LineView> {
    seq![
        LineView::Blank,
        LineView::Comment(" pop"@),
        at_pointer(Pointer::Sp),
        assign(Dest::M, Comp::MMinusOne),
        assign(Dest::A, Comp::M),
        assign(Dest::D, Comp::M),
    ]
}

/// Stores `D` in a scratch register.
pub open spec fn load_register_lines(r: VariableRegister) -> Seq<LineView> {
    seq![at_register(r), assign(Dest::M, Comp::D)]
}

/// The pointer register that holds the base of a segment, for the four
/// segments that have one.
pub open spec fn base_pointer(segment: Segment) -> Pointer {
    match segment {
        Segment::Local => Pointer::Lcl,
        Segment::Argument => Pointer::Arg,
        Segment::This => Pointer::This,
        _ => Pointer::That,
    }
}

/// The first word of the fixed region that the segment `temp` stands for.
pub open spec fn temp_base() -> int {
    5
}

/// The number of words of the region that the segment `temp` stands for.
pub open spec fn temp_slots() -> int {
    8
}

/// What `push segment index` is lowered to in the source unit `unit`, or
/// `None` where the segment cannot be pushed from with this index.
pub open spec fn push_segment_lines(segment: Segment, index: u16, unit: Seq<char>) -> Option<
    Seq<LineView>,
> {
    match segment {
        Segment::Constant => Some(
            seq![
                numbered_comment("constant"@, index),
                at_number(index),
                assign(Dest::D, Comp::A),
            ] + push_lines(),
        ),
        Segment::Temp => if index < temp_slots() {
            let address = (temp_base() + index) as u16;
            Some(
                seq![
                    LineView::Blank,
                    numbered_comment("temp"@, address),
                    at_number(address),
                    assign(Dest::D, Comp::M),
                ] + push_lines() + seq![LineView::Blank],
            )
        } else {
            None
        },
        Segment::Pointer => if index == 0 {
            Some(
                seq![
                    LineView::Blank,
                    numbered_comment("this"@, index),
                    at_pointer(Pointer::This),
                    assign(Dest::D, Comp::M),
                ] + push_lines() + seq![LineView::Blank],
            )
        } else if index == 1 {
            Some(
                seq![
                    LineView::Blank,
                    numbered_comment("that"@, index),
                    at_pointer(Pointer::That),
                    assign(Dest::D, Comp::M),
                ] + push_lines() + seq![LineView::Blank],
            )
        } else {
            None
        },
        Segment::Static => Some(
            seq![
                LineView::Blank,
                numbered_comment("static"@, index),
                LineView::Address(SymbolView::Static(unit, index)),
                LineView::Blank,
                assign(Dest::D, Comp::M),
            ] + push_lines() + seq![LineView::Blank],
        ),
        _ => Some(
            seq![
                LineView::Blank,
                at_number(index),
                assign(Dest::D, Comp::A),
                numbered_comment(segment_name(segment), index),
                at_pointer(base_pointer(segment)),
                assign(Dest::A, Comp::DPlusM),
                assign(Dest::D, Comp::M),
            ] + push_lines() + seq![LineView::Blank],
        ),
    }
}

/// The end of every pop but the static one: stores `D` at the address that
/// the scratch register holds.
pub open spec fn store_through_lines(r: VariableRegister) -> Seq<LineView> {
    seq![LineView::Blank, at_register(r), assign(Dest::A, Comp::M), assign(Dest::M, Comp::D)]
}

/// What `pop segment index` is lowered to in the source unit `unit`, with
/// `r` as scratch register, or `None` where the segment cannot be popped to
/// with this index.
pub open spec fn pop_segment_lines(
    segment: Segment,
    index: u16,
    unit: Seq<char>,
    r: VariableRegister,
) -> Option<Seq<LineView>> {
    match segment {
        Segment::Constant => None,
        Segment::Static => Some(
            seq![LineView::Blank] + pop_lines() + seq![
                LineView::Blank,
                numbered_comment("static"@, index),
                LineView::Address(SymbolView::Static(unit, index)),
                LineView::Blank,
                assign(Dest::M, Comp::D),
            ],
        ),
        Segment::Temp => if index < temp_slots() {
            let address = (temp_base() + index) as u16;
            Some(
                seq![
                    LineView::Blank,
                    numbered_comment("temp"@, address),
                    at_number(address),
                    assign(Dest::D, Comp::A),
                    at_register(r),
                    assign(Dest::M, Comp::D),
                ] + pop_lines() + store_through_lines(r),
            )
        } else {
            None
        },
        Segment::Pointer => if index == 0 {
            Some(
                seq![
                    LineView::Blank,
                    numbered_comment("this"@, index),
                    at_pointer(Pointer::This),
                    assign(Dest::D, Comp::A),
                    at_register(r),
                    assign(Dest::M, Comp::D),
                ] + pop_lines() + store_through_lines(r),
            )
        } else if index == 1 {
            Some(
                seq![
                    LineView::Blank,
                    numbered_comment("that"@, index),
                    at_pointer(Pointer::That),
                    assign(Dest::D, Comp::A),
                    at_register(r),
                    assign(Dest::M, Comp::D),
                ] + pop_lines() + store_through_lines(r),
            )
        } else {
            None
        },
        _ => Some(
            seq![
                LineView::Blank,
                at_number(index),
                assign(Dest::D, Comp::A),
                numbered_comment(segment_name(segment), index),
                at_pointer(base_pointer(segment)),
                assign(Dest::D, Comp::DPlusM),
                at_register(r),
                assign(Dest::M, Comp::D),
            ] + pop_lines() + store_through_lines(r),
        ),
    }
}

/// What `label name` is lowered to.
pub open spec fn label_lines(name: Seq<char>) -> Seq<LineView> {
    seq![LineView::Blank, LineView::Label(SymbolView::Name(name))]
}

/// What `goto name` is lowered to.
pub open spec fn goto_lines(name: Seq<char>) -> Seq<LineView> {
    seq![
        LineView::Blank,
        LineView::Address(SymbolView::Name(name)),
        branch(Comp::Zero, Jump::Always),
    ]
}

/// What `if-goto name` is lowered to: pops, and jumps if the word is not zero.
pub open spec fn if_lines(name: Seq<char>) -> Seq<LineView> {
    seq![LineView::Blank, named_comment(" if-goto "@, name)] + pop_lines() + seq![
        LineView::Blank,
        LineView::Address(SymbolView::Name(name)),
        branch(Comp::D, Jump::IfNotZero),
    ]
}

/// Pushes one zero: the initial value of a local variable.
pub open spec fn zero_push_lines() -> Seq<LineView> {
    seq![LineView::Blank, at_number(0), assign(Dest::D, Comp::A)] + push_lines() + seq![
        LineView::Blank,
    ]
}

/// `count` times the lines of `block`.
pub open spec fn repeat(block: Seq<LineView>, count: nat) -> Seq<LineView>
    decreases count,
{
    if count == 0 {
        Seq::empty()
    } else {
        repeat(block, (count - 1) as nat) + block
    }
}

/// What `function name n_vars` is lowered to: the entry label, then one zero
/// pushed for each local variable.
pub open spec fn function_lines(name: Seq<char>, n_vars: u16) -> Seq<LineView> {
    label_lines(name) + repeat(zero_push_lines(), n_vars as nat)
}

/// Pushes the word that a pointer register holds.
pub open spec fn push_pointer_lines(p: Pointer) -> Seq<LineView> {
    seq![LineView::Blank, at_pointer(p), assign(Dest::D, Comp::M)] + push_lines() + seq![
        LineView::Blank,
    ]
}

/// The first part of a call: pushes the return address and the caller's four
/// pointer registers.
pub open spec fn save_frame_lines(name: Seq<char>, id: u16) -> Seq<LineView> {
    seq![
        LineView::Blank,
        named_comment(" call function "@, name),
        LineView::Comment(" push returnAddress"@),
        LineView::Address(SymbolView::ReturnAddress(name, id)),
        assign(Dest::D, Comp::A),
    ] + push_lines() + seq![LineView::Blank, LineView::Blank] + push_pointer_lines(Pointer::Lcl)
        + seq![LineView::Blank] + push_pointer_lines(Pointer::Arg) + seq![LineView::Blank]
        + push_pointer_lines(Pointer::This) + seq![LineView::Blank] + push_pointer_lines(
        Pointer::That,
    ) + seq![LineView::Blank, LineView::Blank]
}

/// The second part of a call: points `ARG` at the first argument and `LCL`
/// at the top of the stack.
pub open spec fn enter_frame_lines(n_args: u16) -> Seq<LineView> {
    seq![
        LineView::Comment(" ARG=SP-5-nArgs"@),
        at_number(5),
        assign(Dest::D, Comp::A),
        at_number(n_args),
        assign(Dest::D, Comp::DPlusA),
        at_pointer(Pointer::Sp),
        assign(Dest::D, Comp::MMinusD),
        at_pointer(Pointer::Arg),
        assign(Dest::M, Comp::D),
        LineView::Blank,
        LineView::Comment(" LCL=SP"@),
        at_pointer(Pointer::Sp),
        assign(Dest::D, Comp::M),
        at_pointer(Pointer::Lcl),
        assign(Dest::M, Comp::D),
        LineView::Blank,
    ]
}

/// The last part of a call: jumps to the function and declares the return
/// address.
pub open spec fn transfer_lines(name: Seq<char>, id: u16) -> Seq<LineView> {
    seq![named_comment(" goto function "@, name)] + goto_lines(name) + seq![
        LineView::Blank,
        LineView::Blank,
        LineView::Label(SymbolView::ReturnAddress(name, id)),
    ]
}

/// What `call name n_args` is lowered to at the call site numbered `id`.
pub open spec fn call_lines(name: Seq<char>, n_args: u16, id: u16) -> Seq<LineView> {
    save_frame_lines(name, id) + enter_frame_lines(n_args) + transfer_lines(name, id)
}

/// Loads into `D` the word that lies `offset` words below the frame base.
pub open spec fn frame_word_lines(offset: u16) -> Seq<LineView> {
    seq![
        LineView::Blank,
        at_number(offset),
        assign(Dest::D, Comp::A),
        LineView::Address(SymbolView::Frame),
        assign(Dest::A, Comp::MMinusD),
        assign(Dest::D, Comp::M),
    ]
}

/// Restores a pointer register from the word that lies `offset` words below
/// the frame base.
pub open spec fn restore_lines(offset: u16, p: Pointer) -> Seq<LineView> {
    frame_word_lines(offset) + seq![at_pointer(p), assign(Dest::M, Comp::D)]
}

/// What `return` is lowered to.
pub open spec fn return_lines() -> Seq<LineView> {
    seq![
        LineView::Blank,
        LineView::Comment(" return"@),
        at_pointer(Pointer::Lcl),
        assign(Dest::D, Comp::M),
        LineView::Address(SymbolView::Frame),
        assign(Dest::M, Comp::D),
    ] + frame_word_lines(5) + seq![
        LineView::Address(SymbolView::ReturnTarget),
        assign(Dest::M, Comp::D),
        LineView::Blank,
        LineView::Comment(" pop to ARG"@),
    ] + pop_lines() + seq![
        LineView::Blank,
        at_pointer(Pointer::Arg),
        assign(Dest::A, Comp::M),
        assign(Dest::M, Comp::D),
        assign(Dest::D, Comp::A),
        at_pointer(Pointer::Sp),
        assign(Dest::M, Comp::DPlusOne),
        LineView::Blank,
        LineView::Address(SymbolView::Frame),
        assign(Dest::A, Comp::MMinusOne),
        assign(Dest::D, Comp::M),
        at_pointer(Pointer::That),
        assign(Dest::M, Comp::D),
    ] + restore_lines(2, Pointer::This) + restore_lines(3, Pointer::Arg) + restore_lines(
        4,
        Pointer::Lcl,
    ) + seq![
        LineView::Blank,
        LineView::Comment("goto retAddr"@),
        LineView::Address(SymbolView::ReturnTarget),
        assign(Dest::A, Comp::M),
        branch(Comp::Zero, Jump::Always),
    ]
}

/// Sets a pointer register to a fixed address.
pub open spec fn set_pointer_lines(address: u16, p: Pointer) -> Seq<LineView> {
    seq![at_number(address), assign(Dest::D, Comp::A), at_pointer(p), assign(Dest::M, Comp::D)]
}

/// The name of the function that every program starts in.
pub open spec fn entry_function() -> Seq<char> {
    "Sys.init"@
}

/// The word at which the stack begins.
pub open spec fn stack_base() -> u16 {
    256
}

/// What every program begins with: sets the stack pointer to the base of the
/// stack, then calls the entry function, without arguments, at the call site
/// numbered `id`.
pub open spec fn bootstrap_lines(id: u16) -> Seq<LineView> {
    seq![LineView::Blank, LineView::Comment(" bootstrap     "@)] + set_pointer_lines(
        stack_base(),
        Pointer::Sp,
    ) + call_lines(entry_function(), 0, id) + seq![LineView::Blank]
}

/// What every program ends with: a loop at the label `END`, which is declared
/// here unless the program has declared it already.
pub open spec fn infinity_loop_lines(has_end_label: bool) -> Seq<LineView> {
    seq![
        if has_end_label {
            LineView::Blank
        } else {
            LineView::Label(SymbolView::End)
        },
        LineView::Address(SymbolView::End),
        branch(Comp::Zero, Jump::Always),
    ]
}

/// What an operation computes into `D`, where the second operand is in the
/// scratch register `r` and, for an operation on two operands, the first one
/// is in `D`.
pub open spec fn operator(op: Operation) -> LineView {
    match op {
        Operation::Add => assign(Dest::D, Comp::DPlusM),
        Operation::Sub => assign(Dest::D, Comp::DMinusM),
        Operation::Neg => assign(Dest::D, Comp::NegM),
        Operation::Eq => branch(Comp::D, Jump::IfZero),
        Operation::Gt => branch(Comp::D, Jump::IfPositive),
        Operation::Lt => branch(Comp::D, Jump::IfNegative),
        Operation::And => assign(Dest::D, Comp::DAndM),
        Operation::Or => assign(Dest::D, Comp::DOrM),
        Operation::Not => assign(Dest::D, Comp::NotM),
    }
}

/// The text of the comment that names an operation.
pub open spec fn operation_note(op: Operation) -> Seq<char> {
    " "@ + operation_name(op)
}

/// The comment that names an operation.
pub open spec fn operation_comment(op: Operation) -> LineView {
    LineView::Comment(operation_note(op))
}

/// Whether an operation is one of the three comparisons.
pub open spec fn is_comparison(op: Operation) -> bool {
    op is Eq || op is Gt || op is Lt
}

/// Whether an operation is one of the three logical operations.
pub open spec fn is_logical(op: Operation) -> bool {
    op is And || op is Or || op is Not
}

/// The lines from which the code of an operation is made. For a comparison:
/// the subtraction, the conditional jump numbered `id` and the two outcomes,
/// zero and all bits set. For the others the one computation; around that
/// of a logical operation the lines stand indented.
pub open spec fn operation_lines(op: Operation, r: VariableRegister, id: u16) -> Seq<LineView> {
    if is_comparison(op) {
        seq![
            LineView::Blank,
            at_register(r),
            assign(Dest::D, Comp::DMinusM),
            LineView::Address(SymbolView::True(id)),
            operation_comment(op),
            operator(op),
            assign(Dest::D, Comp::Zero),
            LineView::Address(SymbolView::Push(id)),
            branch(Comp::Zero, Jump::Always),
            LineView::Label(SymbolView::True(id)),
            assign(Dest::D, Comp::MinusOne),
            LineView::Label(SymbolView::Push(id)),
        ]
    } else if is_logical(op) {
        seq![
            LineView::Blank,
            LineView::IndentedAddress(SymbolView::Variable(r)),
            LineView::IndentedComment(operation_note(op)),
            operator(op),
            LineView::Indentation,
        ]
    } else {
        seq![at_register(r), operation_comment(op), operator(op)]
    }
}

/// The text from which the code of an operation is made: the text of its
/// lines, after the last of which only a comparison has a line break.
pub open spec fn operation_template(op: Operation, r: VariableRegister, id: u16) -> Seq<char> {
    if is_comparison(op) {
        render(operation_lines(op, r, id))
    } else {
        join(operation_lines(op, r, id))
    }
}

/// The code of an operation: the text of its lines without the empty line at
/// their start.
pub open spec fn operation_code(op: Operation, r: VariableRegister, id: u16) -> Seq<char> {
    if is_comparison(op) {
        render(written_lines(operation_lines(op, r, id)))
    } else {
        join(written_lines(operation_lines(op, r, id)))
    }
}

/// The lines in front of the code of an operation: pops the second operand
/// into the scratch register and, for an operation on two operands, the first
/// one into `D`.
pub open spec fn operand_lines(unary: bool, r: VariableRegister) -> Seq<LineView> {
    pop_lines() + seq![LineView::Blank] + load_register_lines(r) + if unary {
        seq![LineView::Blank]
    } else {
        pop_lines() + seq![LineView::Blank]
    }
}

/// The text of an arithmetic command around the code `operation` of its
/// operation: the operands are popped, the operation computes, the result is
/// pushed.
pub open spec fn arithmetic_template(operation: Seq<char>, unary: bool, r: VariableRegister) -> Seq<
    char,
> {
    render(operand_lines(unary, r)) + operation + "\n"@ + render(push_lines())
}

/// The lines that an arithmetic command stands for in the output: the
/// operands are popped, the operation computes, the result is pushed. The
/// lines of a comparison are followed by an empty line.
pub open spec fn arithmetic_lines(op: Operation, r: VariableRegister, id: u16) -> Seq<LineView> {
    let middle = written_lines(operation_lines(op, r, id));
    written_lines(operand_lines(is_unary(op), r)) + if is_comparison(op) {
        middle + seq![LineView::Blank]
    } else {
        middle
    } + push_lines()
}

/// The text of an arithmetic command as it stands in the output.
pub open spec fn arithmetic_text(op: Operation, r: VariableRegister, id: u16) -> Seq<char> {
    render(arithmetic_lines(op, r, id))
}

/// The template of an operation is flush, and without the line break at its
/// start it is the code of the operation.
#[verifier::rlimit(60)]
pub proof fn lemma_operation_template(op: Operation, r: VariableRegister, id: u16)
    ensures
        is_flush(operation_template(op, r, id)),
        without_leading_break(operation_template(op, r, id)) == operation_code(op, r, id),
{
    let lines = operation_lines(op, r, id);
    if is_comparison(op) {
        lemma_lines_flush(lines, 1);
    } else {
        let at = if is_logical(op) {
            3int
        } else {
            1int
        };
        let front = lines.drop_last();
        lemma_join_render(lines);
        lemma_rendered_flush(front, at, line_text(lines.last()));
        lemma_join_render(written_lines(lines));
        assert(written_lines(lines).drop_last() =~= written_lines(front));
    }
}

/// The template of an arithmetic command around the code of its operation
/// is flush, and without the line break at its start it is the text of the
/// command as it stands in the output, which is flush again and begins with
/// no line break.
#[verifier::rlimit(60)]
pub proof fn lemma_arithmetic_template(op: Operation, r: VariableRegister, id: u16)
    ensures
        ({
            let template = arithmetic_template(operation_code(op, r, id), is_unary(op), r);
            let text = arithmetic_text(op, r, id);
            &&& is_flush(template)
            &&& without_leading_break(template) == text
            &&& is_flush(text)
            &&& without_leading_break(text) == text
        }),
{
    reveal_strlit("\n");
    reveal_strlit("");
    let lines = operand_lines(is_unary(op), r);
    let operation = operation_code(op, r, id);
    let tail = operation + "\n"@ + render(push_lines());
    let template = arithmetic_template(operation, is_unary(op), r);
    assert(lines[0] is Blank);
    assert(lines[1] == LineView::Comment(" pop"@));
    assert(lines[2] == at_pointer(Pointer::Sp));
    lemma_rendered_flush(lines, 1, tail);
    assert(template =~= render(lines) + tail);
    let rest = written_lines(lines);
    assert(rest[0] == lines[1]);
    assert(rest[1] == lines[2]);
    lemma_rendered_flush(rest, 1, tail);
    assert(written_lines(rest) == rest);
    let middle = written_lines(operation_lines(op, r, id));
    let blank = seq![LineView::Blank];
    assert(render(blank) =~= "\n"@) by {
        assert(blank.drop_last() =~= Seq::<LineView>::empty());
        reveal_with_fuel(render, 2);
    }
    if is_comparison(op) {
        lemma_render_concat(rest + (middle + blank), push_lines());
        lemma_render_concat(rest, middle + blank);
        lemma_render_concat(middle, blank);
        assert(arithmetic_lines(op, r, id) =~= rest + (middle + blank) + push_lines());
        assert(render(rest) + tail =~= render(rest) + (render(middle) + render(blank)) + render(
            push_lines(),
        ));
    } else {
        lemma_render_concat(rest + middle, push_lines());
        lemma_render_concat(rest, middle);
        lemma_join_render(middle);
        assert(render(middle) == render(middle.drop_last()) + line_text(middle.last()) + "\n"@);
        assert(arithmetic_lines(op, r, id) =~= rest + middle + push_lines());
        assert(render(rest) + tail =~= render(rest) + render(middle) + render(push_lines()));
    }
}

/// The lines of a push have a line that is neither empty nor indented right
/// after the first.
#[verifier::rlimit(60)]
pub proof fn lemma_push_segment_visible(segment: Segment, index: u16, unit: Seq<char>)
    requires
        push_segment_lines(segment, index, unit) is Some,
    ensures
        push_segment_lines(segment, index, unit).unwrap().len() > 1,
        begins_visible(push_segment_lines(segment, index, unit).unwrap()[1]),
        ({
            let first = push_segment_lines(segment, index, unit).unwrap()[0];
            first is Blank || begins_visible(first)
        }),
{
}

/// The lines of a pop have a line that is neither empty nor indented among
/// the first three, and begin with an empty line.
#[verifier::rlimit(60)]
pub proof fn lemma_pop_segment_visible(
    segment: Segment,
    index: u16,
    unit: Seq<char>,
    r: VariableRegister,
)
    requires
        pop_segment_lines(segment, index, unit, r) is Some,
    ensures
        pop_segment_lines(segment, index, unit, r).unwrap().len() > 2,
        pop_segment_lines(segment, index, unit, r).unwrap()[0] is Blank,
        begins_visible(
            pop_segment_lines(segment, index, unit, r).unwrap()[if segment is Static {
                2int
            } else {
                1int
            }],
        ),
{
}

} // verus!
