//! A model of the target machine: what a line of assembly does to the
//! registers and the memory.

use vstd::prelude::*;
use crate::assembly::{
    Comp, Dest, Jump, LineView, Pointer, SymbolView, VariableRegister, written_lines,
};

verus! {

/// The number of values that a machine word can take.
pub open spec fn word_size() -> int {
    0x10000
}

/// The machine word that stands for the integer `x`: words wrap around.
pub open spec fn word(x: int) -> int {
    x % word_size()
}

/// Whether a word is negative when read as a signed number.
pub open spec fn is_negative(x: int) -> bool {
    x >= 0x8000
}

/// The word with all bits set, which stands for true (and for -1).
pub open spec fn all_bits() -> int {
    0xffff
}

/// The memory of the target machine: a word at every address.
#[verifier::ext_equal]
pub struct Memory {
    pub words: spec_fn(int) -> int,
}

impl Memory {
    /// The word at an address.
    pub open spec fn read(self, at: int) -> int {
        (self.words)(at)
    }

    /// The memory with the word `v` at an address, and as before elsewhere.
    pub open spec fn write(self, at: int, v: int) -> Memory {
        Memory {
            words: |k: int|
                if k == at {
                    v
                } else {
                    (self.words)(k)
                },
        }
    }
}

/// The state of the target machine: the address register, the data register,
/// the memory, and the index of the line that is executed next.
#[verifier::ext_equal]
pub struct Machine {
    pub a: int,
    pub d: int,
    pub ram: Memory,
    pub pc: int,
}

/// The memory word that a pointer register lives in.
pub open spec fn pointer_address(p: Pointer) -> int {
    match p {
        Pointer::Sp => 0,
        Pointer::Lcl => 1,
        Pointer::Arg => 2,
        Pointer::This => 3,
        Pointer::That => 4,
    }
}

/// The memory word that a scratch register lives in.
pub open spec fn register_address(r: VariableRegister) -> int {
    match r {
        VariableRegister::R13 => 13,
        VariableRegister::R14 => 14,
        VariableRegister::R15 => 15,
    }
}

/// The value that an address load gives for a symbol: a number stands for
/// itself, the registers have fixed places, and `table` places the variables
/// and the labels, as the assembler does.
pub open spec fn address_of(s: SymbolView, table: spec_fn(SymbolView) -> int) -> int {
    match s {
        SymbolView::Number(n) => n as int,
        SymbolView::Pointer(p) => pointer_address(p),
        SymbolView::Variable(r) => register_address(r),
        _ => word(table(s)),
    }
}

/// The bitwise conjunction of two words.
pub open spec fn bit_and(x: int, y: int) -> int {
    ((x as u16) & (y as u16)) as int
}

/// The bitwise disjunction of two words.
pub open spec fn bit_or(x: int, y: int) -> int {
    ((x as u16) | (y as u16)) as int
}

/// The word that a computation gives, from the registers `a` and `d` and the
/// memory word `m` that `a` addresses.
pub open spec fn comp_value(c: Comp, a: int, d: int, m: int) -> int {
    match c {
        Comp::Zero => 0,
        Comp::MinusOne => all_bits(),
        Comp::D => d,
        Comp::A => a,
        Comp::M => m,
        Comp::NotM => all_bits() - m,
        Comp::NegM => word(-m),
        Comp::DPlusOne => word(d + 1),
        Comp::MPlusOne => word(m + 1),
        Comp::MMinusOne => word(m - 1),
        Comp::DPlusA => word(d + a),
        Comp::DPlusM => word(d + m),
        Comp::DMinusM => word(d - m),
        Comp::MMinusD => word(m - d),
        Comp::DAndM => bit_and(d, m),
        Comp::DOrM => bit_or(d, m),
    }
}

/// Whether a jump is taken on the computed word `v`.
pub open spec fn jump_taken(j: Jump, v: int) -> bool {
    match j {
        Jump::Never => false,
        Jump::IfZero => v == 0,
        Jump::IfPositive => v != 0 && !is_negative(v),
        Jump::IfNegative => is_negative(v),
        Jump::IfNotZero => v != 0,
        Jump::Always => true,
    }
}

/// The state after one line was executed. Blank lines, comments and label
/// declarations only pass control on. An address load sets `A`. A computation
/// stores its word where the destination says and then jumps to the line
/// that `A` addressed, or passes control on. Indentation changes nothing.
pub open spec fn execute(line: LineView, s: Machine, table: spec_fn(SymbolView) -> int) -> Machine {
    match line {
        LineView::Address(symbol) => Machine { a: address_of(symbol, table), pc: s.pc + 1, ..s },
        LineView::IndentedAddress(symbol) => Machine {
            a: address_of(symbol, table),
            pc: s.pc + 1,
            ..s
        },
        LineView::Compute(dest, comp, jump) => {
            let v = comp_value(comp, s.a, s.d, s.ram.read(s.a));
            let pc = if jump_taken(jump, v) {
                s.a
            } else {
                s.pc + 1
            };
            match dest {
                Dest::Nowhere => Machine { pc, ..s },
                Dest::A => Machine { a: v, pc, ..s },
                Dest::D => Machine { d: v, pc, ..s },
                Dest::M => Machine { ram: s.ram.write(s.a, v), pc, ..s },
            }
        },
        _ => Machine { pc: s.pc + 1, ..s },
    }
}

/// The state after `steps` lines of `lines` were executed, or fewer where
/// control left the lines before.
pub open spec fn run(
    lines: Seq<LineView>,
    s: Machine,
    table: spec_fn(SymbolView) -> int,
    steps: nat,
) -> Machine
    decreases steps,
{
    if steps == 0 || s.pc < 0 || s.pc >= lines.len() {
        s
    } else {
        run(lines, execute(lines[s.pc], s, table), table, (steps - 1) as nat)
    }
}

/// Whether a line passes control on to the next line whatever it computes.
pub open spec fn falls_through(line: LineView) -> bool {
    line matches LineView::Compute(_, _, jump) ==> jump is Never
}

/// Whether no line of a block jumps.
pub open spec fn is_straight(block: Seq<LineView>) -> bool {
    forall|i: int| 0 <= i < block.len() ==> falls_through(#[trigger] block[i])
}

/// The state after the lines of `block` from index `from` on were executed
/// one after the other.
pub open spec fn effect_from(
    block: Seq<LineView>,
    from: int,
    s: Machine,
    table: spec_fn(SymbolView) -> int,
) -> Machine
    decreases block.len() - from,
{
    if from < 0 || from >= block.len() {
        s
    } else {
        effect_from(block, from + 1, execute(block[from], s, table), table)
    }
}

/// The state after the lines of `block` were executed one after the other.
pub open spec fn effect(block: Seq<LineView>, s: Machine, table: spec_fn(SymbolView) -> int)
    -> Machine {
    effect_from(block, 0, s, table)
}

/// The effect of a block does not depend on what stands in front of it.
pub proof fn lemma_effect_shift(
    a: Seq<LineView>,
    b: Seq<LineView>,
    from: int,
    s: Machine,
    table: spec_fn(SymbolView) -> int,
)
    requires
        0 <= from <= b.len(),
    ensures
        effect_from(a + b, a.len() + from, s, table) == effect_from(b, from, s, table),
    decreases b.len() - from,
{
    if from < b.len() {
        assert((a + b)[a.len() + from] == b[from]);
        lemma_effect_shift(a, b, from + 1, execute(b[from], s, table), table);
    }
}

/// The effect of two blocks in a row is the effect of the second on what the
/// first has left.
pub proof fn lemma_effect_concat(
    a: Seq<LineView>,
    b: Seq<LineView>,
    from: int,
    s: Machine,
    table: spec_fn(SymbolView) -> int,
)
    requires
        0 <= from <= a.len(),
    ensures
        effect_from(a + b, from, s, table) == effect(b, effect_from(a, from, s, table), table),
    decreases a.len() - from,
{
    if from < a.len() {
        assert((a + b)[from] == a[from]);
        lemma_effect_concat(a, b, from + 1, execute(a[from], s, table), table);
    } else {
        lemma_effect_shift(a, b, 0, s, table);
    }
}

/// A block without jumps, standing in `lines` from the line that is executed
/// next, runs to its end and has its effect.
pub proof fn lemma_run_straight(
    lines: Seq<LineView>,
    block: Seq<LineView>,
    from: int,
    s: Machine,
    table: spec_fn(SymbolView) -> int,
    more: nat,
)
    requires
        0 <= from <= block.len(),
        0 <= s.pc,
        s.pc + block.len() - from <= lines.len(),
        forall|i: int| from <= i < block.len() ==> lines[s.pc + i - from] == #[trigger] block[i],
        is_straight(block),
    ensures
        run(lines, s, table, (block.len() - from + more) as nat) == run(
            lines,
            effect_from(block, from, s, table),
            table,
            more,
        ),
        effect_from(block, from, s, table).pc == s.pc + block.len() - from,
    decreases block.len() - from,
{
    if from < block.len() {
        assert(lines[s.pc] == block[from]);
        assert(falls_through(block[from]));
        let next = execute(block[from], s, table);
        assert(next.pc == s.pc + 1);
        assert forall|i: int| from + 1 <= i < block.len() implies lines[next.pc + i - (from + 1)]
            == #[trigger] block[i] by {
            assert(lines[s.pc + i - from] == block[i]);
        }
        lemma_run_straight(lines, block, from + 1, next, table, more);
    }
}

/// Blocks without jumps make a block without jumps.
pub proof fn lemma_straight_concat(a: Seq<LineView>, b: Seq<LineView>)
    requires
        is_straight(a),
        is_straight(b),
    ensures
        is_straight(a + b),
{
    assert forall|i: int| 0 <= i < (a + b).len() implies falls_through(
        #[trigger] (a + b)[i],
    ) by {
        if i < a.len() {
            assert((a + b)[i] == a[i]);
        } else {
            assert((a + b)[i] == b[i - a.len()]);
        }
    }
}

/// The effect of two blocks without jumps in a row.
pub proof fn lemma_sequence(
    a: Seq<LineView>,
    b: Seq<LineView>,
    s: Machine,
    table: spec_fn(SymbolView) -> int,
)
    requires
        is_straight(a),
        is_straight(b),
    ensures
        is_straight(a + b),
        effect(a + b, s, table) == effect(b, effect(a, s, table), table),
{
    lemma_effect_concat(a, b, 0, s, table);
    lemma_straight_concat(a, b);
}

/// The effect of a block without jumps does not depend on where the block
/// stands, but for the index of the line that is executed next.
pub proof fn lemma_effect_anywhere(
    block: Seq<LineView>,
    from: int,
    s: Machine,
    pc: int,
    table: spec_fn(SymbolView) -> int,
)
    requires
        0 <= from <= block.len(),
        is_straight(block),
    ensures
        effect_from(block, from, Machine { pc, ..s }, table) == (Machine {
            pc: pc + block.len() - from,
            ..effect_from(block, from, s, table)
        }),
        effect_from(block, from, s, table).pc == s.pc + block.len() - from,
    decreases block.len() - from,
{
    if from < block.len() {
        assert(falls_through(block[from]));
        let next = execute(block[from], s, table);
        let moved = execute(block[from], Machine { pc, ..s }, table);
        assert(moved == Machine { pc: pc + 1, ..next });
        lemma_effect_anywhere(block, from + 1, next, pc + 1, table);
    }
}

/// An empty line at the start of a block without jumps adds nothing to the
/// effect of the block but one line passed.
pub proof fn lemma_leading_blank(
    block: Seq<LineView>,
    s: Machine,
    table: spec_fn(SymbolView) -> int,
)
    requires
        block.len() > 0,
        block[0] is Blank,
        is_straight(block),
    ensures
        is_straight(block.drop_first()),
        effect(block.drop_first(), s, table) == (Machine {
            pc: s.pc + block.len() - 1,
            ..effect(block, s, table)
        }),
{
    let rest = block.drop_first();
    let head = seq![block[0]];
    assert(block =~= head + rest);
    assert forall|i: int| 0 <= i < rest.len() implies falls_through(#[trigger] rest[i]) by {
        assert(rest[i] == block[i + 1]);
    }
    let next = execute(block[0], s, table);
    assert(effect(block, s, table) == effect_from(block, 1, next, table));
    lemma_effect_shift(head, rest, 0, next, table);
    lemma_effect_anywhere(rest, 0, s, s.pc + 1, table);
    lemma_effect_anywhere(rest, 0, s, s.pc, table);
}

/// The lines as they stand in the output have the effect of the lines, but
/// for the empty line at the start, which only counts as a line passed.
pub proof fn lemma_written_effect(
    block: Seq<LineView>,
    s: Machine,
    table: spec_fn(SymbolView) -> int,
)
    requires
        is_straight(block),
    ensures
        is_straight(written_lines(block)),
        effect(written_lines(block), s, table) == (Machine {
            pc: s.pc + written_lines(block).len(),
            ..effect(block, s, table)
        }),
{
    if block.len() > 0 && block[0] is Blank {
        lemma_leading_blank(block, s, table);
    } else {
        lemma_effect_anywhere(block, 0, s, s.pc, table);
    }
}

/// Running on is running from where the run so far has led.
pub proof fn lemma_run_add(
    lines: Seq<LineView>,
    s: Machine,
    table: spec_fn(SymbolView) -> int,
    first: nat,
    then: nat,
)
    ensures
        run(lines, s, table, first + then) == run(lines, run(lines, s, table, first), table, then),
    decreases first,
{
    if first == 0 {
    } else if s.pc < 0 || s.pc >= lines.len() {
        assert(run(lines, s, table, then) == s) by {
            reveal_with_fuel(run, 1);
        }
    } else {
        lemma_run_add(lines, execute(lines[s.pc], s, table), table, (first - 1) as nat, then);
    }
}

} // verus!
