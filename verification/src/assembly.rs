//! Lines of target assembly: address loads, computations, labels, comments,
//! and their text.

use vstd::prelude::*;
use vstd::string::*;
use crate::indent::{is_flush, lemma_flush, without_leading_break};
use crate::text::{decimal, decimal_string};

verus! {

/// The pointer registers of the target, each mapped to a fixed memory word.
#[derive(Clone, Copy, Debug, PartialEq, Eq)]
pub enum Pointer {
    Sp,
    Lcl,
    Arg,
    This,
    That,
}

/// The general-purpose registers that generated code may use as scratch space.
#[derive(Clone, Copy, Debug, PartialEq, Eq)]
pub enum VariableRegister {
    R13,
    R14,
    R15,
}

/// Where a computation stores its result.
#[derive(Clone, Copy, Debug, PartialEq, Eq)]
pub enum Dest {
    Nowhere,
    A,
    D,
    M,
}

/// What a computation computes, over the registers `A` and `D` and the memory
/// word `M` that `A` addresses.
#[derive(Clone, Copy, Debug, PartialEq, Eq)]
pub enum Comp {
    Zero,
    MinusOne,
    D,
    A,
    M,
    NotM,
    NegM,
    DPlusOne,
    MPlusOne,
    MMinusOne,
    DPlusA,
    DPlusM,
    DMinusM,
    MMinusD,
    DAndM,
    DOrM,
}

/// When a computation jumps to the instruction that `A` addresses.
#[derive(Clone, Copy, Debug, PartialEq, Eq)]
pub enum Jump {
    Never,
    IfZero,
    IfPositive,
    IfNegative,
    IfNotZero,
    Always,
}

/// What an address load or a label names.
#[derive(Clone, Debug, PartialEq, Eq)]
pub enum Symbol {
    /// A literal number.
    Number(u16),
    /// A pointer register.
    Pointer(Pointer),
    /// A scratch register.
    Variable(VariableRegister),
    /// The variable that holds the frame base while a function returns.
    Frame,
    /// The variable that holds the return address while a function returns.
    ReturnTarget,
    /// The label of the loop that ends every program.
    End,
    /// The static variable of a source unit with the given index.
    Static(String, u16),
    /// The return address of the call site of a function with the given number.
    ReturnAddress(String, u16),
    /// The branch target of the comparison with the given number.
    True(u16),
    /// The join point of the comparison with the given number.
    Push(u16),
    /// A label or function name taken from the source program.
    Name(String),
}

/// The mathematical value of a [`Symbol`].
pub enum SymbolView {
    Number(u16),
    Pointer(Pointer),
    Variable(VariableRegister),
    Frame,
    ReturnTarget,
    End,
    Static(Seq<char>, u16),
    ReturnAddress(Seq<char>, u16),
    True(u16),
    Push(u16),
    Name(Seq<char>),
}

impl View for Symbol {
    type V = SymbolView;

    open spec fn view(&self) -> SymbolView {
        match self {
            Symbol::Number(n) => SymbolView::Number(*n),
            Symbol::Pointer(p) => SymbolView::Pointer(*p),
            Symbol::Variable(r) => SymbolView::Variable(*r),
            Symbol::Frame => SymbolView::Frame,
            Symbol::ReturnTarget => SymbolView::ReturnTarget,
            Symbol::End => SymbolView::End,
            Symbol::Static(unit, index) => SymbolView::Static(unit@, *index),
            Symbol::ReturnAddress(function, id) => SymbolView::ReturnAddress(function@, *id),
            Symbol::True(id) => SymbolView::True(*id),
            Symbol::Push(id) => SymbolView::Push(*id),
            Symbol::Name(name) => SymbolView::Name(name@),
        }
    }
}

/// One line of assembly text.
#[derive(Clone, Debug, PartialEq, Eq)]
pub enum Line {
    /// An empty line.
    Blank,
    /// A comment; the text is what follows the two slashes.
    Comment(String),
    /// Loads the address of a symbol into `A`.
    Address(Symbol),
    /// Computes, stores and possibly jumps.
    Compute(Dest, Comp, Jump),
    /// Declares a label at this position.
    Label(Symbol),
    /// A comment that stands indented.
    IndentedComment(String),
    /// An address load that stands indented.
    IndentedAddress(Symbol),
    /// A line of indentation and nothing else.
    Indentation,
}

/// The mathematical value of a [`Line`].
pub enum LineView {
    Blank,
    Comment(Seq<char>),
    Address(SymbolView),
    Compute(Dest, Comp, Jump),
    Label(SymbolView),
    IndentedComment(Seq<char>),
    IndentedAddress(SymbolView),
    Indentation,
}

impl View for Line {
    type V = LineView;

    open spec fn view(&self) -> LineView {
        match self {
            Line::Blank => LineView::Blank,
            Line::Comment(text) => LineView::Comment(text@),
            Line::Address(symbol) => LineView::Address(symbol@),
            Line::Compute(dest, comp, jump) => LineView::Compute(*dest, *comp, *jump),
            Line::Label(symbol) => LineView::Label(symbol@),
            Line::IndentedComment(text) => LineView::IndentedComment(text@),
            Line::IndentedAddress(symbol) => LineView::IndentedAddress(symbol@),
            Line::Indentation => LineView::Indentation,
        }
    }
}

/// The name of a pointer register in assembly.
pub open spec fn pointer_text(p: Pointer) -> Seq<char> {
    match p {
        Pointer::Sp => "SP"@,
        Pointer::Lcl => "LCL"@,
        Pointer::Arg => "ARG"@,
        Pointer::This => "THIS"@,
        Pointer::That => "THAT"@,
    }
}

/// The name of a scratch register in assembly.
pub open spec fn register_text(r: VariableRegister) -> Seq<char> {
    match r {
        VariableRegister::R13 => "R13"@,
        VariableRegister::R14 => "R14"@,
        VariableRegister::R15 => "R15"@,
    }
}

/// The text of a destination, with the equals sign that follows it.
pub open spec fn dest_text(d: Dest) -> Seq<char> {
    match d {
        Dest::Nowhere => ""@,
        Dest::A => "A="@,
        Dest::D => "D="@,
        Dest::M => "M="@,
    }
}

/// The text of a computation.
pub open spec fn comp_text(c: Comp) -> Seq<char> {
    match c {
        Comp::Zero => "0"@,
        Comp::MinusOne => "-1"@,
        Comp::D => "D"@,
        Comp::A => "A"@,
        Comp::M => "M"@,
        Comp::NotM => "!M"@,
        Comp::NegM => "-M"@,
        Comp::DPlusOne => "D+1"@,
        Comp::MPlusOne => "M+1"@,
        Comp::MMinusOne => "M-1"@,
        Comp::DPlusA => "D+A"@,
        Comp::DPlusM => "D+M"@,
        Comp::DMinusM => "D-M"@,
        Comp::MMinusD => "M-D"@,
        Comp::DAndM => "D&M"@,
        Comp::DOrM => "D|M"@,
    }
}

/// The text of a jump, with the semicolon in front of it.
pub open spec fn jump_text(j: Jump) -> Seq<char> {
    match j {
        Jump::Never => ""@,
        Jump::IfZero => ";JEQ"@,
        Jump::IfPositive => ";JGT"@,
        Jump::IfNegative => ";JLT"@,
        Jump::IfNotZero => ";JNE"@,
        Jump::Always => ";JMP"@,
    }
}

/// The name of the static variable `index` of the source unit `unit`.
pub open spec fn static_text(unit: Seq<char>, index: u16) -> Seq<char> {
    unit + "."@ + decimal(index as nat)
}

/// The name of the return address of call site `id` of `function`.
pub open spec fn return_address_text(function: Seq<char>, id: u16) -> Seq<char> {
    function + "$ret."@ + decimal(id as nat)
}

/// The name of the branch target of comparison `id`.
pub open spec fn true_text(id: u16) -> Seq<char> {
    "TRUE"@ + decimal(id as nat)
}

/// The name of the join point of comparison `id`.
pub open spec fn push_text(id: u16) -> Seq<char> {
    "PUSH"@ + decimal(id as nat)
}

/// The text that names a symbol in assembly.
pub open spec fn symbol_text(s: SymbolView) -> Seq<char> {
    match s {
        SymbolView::Number(n) => decimal(n as nat),
        SymbolView::Pointer(p) => pointer_text(p),
        SymbolView::Variable(r) => register_text(r),
        SymbolView::Frame => "frame"@,
        SymbolView::ReturnTarget => "retAddr"@,
        SymbolView::End => "END"@,
        SymbolView::Static(unit, index) => static_text(unit, index),
        SymbolView::ReturnAddress(function, id) => return_address_text(function, id),
        SymbolView::True(id) => true_text(id),
        SymbolView::Push(id) => push_text(id),
        SymbolView::Name(name) => name,
    }
}

/// The spaces in front of a line that stands indented.
pub open spec fn indentation() -> Seq<char> {
    "        "@
}

/// The text of a line, without the line break.
pub open spec fn line_text(l: LineView) -> Seq<char> {
    match l {
        LineView::Blank => ""@,
        LineView::Comment(text) => "//"@ + text,
        LineView::Address(symbol) => "@"@ + symbol_text(symbol),
        LineView::Compute(dest, comp, jump) => dest_text(dest) + comp_text(comp) + jump_text(jump),
        LineView::Label(symbol) => "("@ + symbol_text(symbol) + ")"@,
        LineView::IndentedComment(text) => indentation() + "//"@ + text,
        LineView::IndentedAddress(symbol) => indentation() + "@"@ + symbol_text(symbol),
        LineView::Indentation => indentation(),
    }
}

/// Whether a line is neither empty nor indented, so that its text begins
/// with a character that can be seen.
pub open spec fn begins_visible(l: LineView) -> bool {
    l is Comment || l is Address || l is Compute || l is Label
}

/// The text of a list of lines, each followed by a line break.
pub open spec fn render(lines: Seq<LineView>) -> Seq<char>
    decreases lines.len(),
{
    if lines.len() == 0 {
        Seq::empty()
    } else {
        render(lines.drop_last()) + line_text(lines.last()) + "\n"@
    }
}

/// The text of a list of lines, with a line break between each two.
pub open spec fn join(lines: Seq<LineView>) -> Seq<char>
    decreases lines.len(),
{
    if lines.len() == 0 {
        Seq::empty()
    } else if lines.len() == 1 {
        line_text(lines[0])
    } else {
        join(lines.drop_last()) + "\n"@ + line_text(lines.last())
    }
}

/// Rendering distributes over concatenation.
pub proof fn lemma_render_concat(a: Seq<LineView>, b: Seq<LineView>)
    ensures
        render(a + b) == render(a) + render(b),
    decreases b.len(),
{
    if b.len() == 0 {
        assert(a + b =~= a);
        assert(render(a) + render(b) =~= render(a));
    } else {
        lemma_render_concat(a, b.drop_last());
        assert((a + b).drop_last() =~= a + b.drop_last());
        assert((a + b).last() == b.last());
        assert(render(a + b) =~= render(a) + render(b));
    }
}

/// Whether a character can be seen and stands on a line: it is no space, no
/// tab, no line break and no carriage return.
pub open spec fn is_visible(c: char) -> bool {
    c != ' ' && c != '\t' && c != '\n' && c != '\r'
}

/// The text of a line that is neither empty nor indented begins with a
/// visible character.
#[verifier::rlimit(60)]
pub proof fn lemma_line_begins_visible(l: LineView)
    requires
        begins_visible(l),
    ensures
        line_text(l).len() > 0,
        is_visible(line_text(l)[0]),
{
    reveal_strlit("//");
    reveal_strlit("@");
    reveal_strlit("(");
    reveal_strlit("");
    reveal_strlit("A=");
    reveal_strlit("D=");
    reveal_strlit("M=");
    reveal_strlit("0");
    reveal_strlit("-1");
    reveal_strlit("D");
    reveal_strlit("A");
    reveal_strlit("M");
    reveal_strlit("!M");
    reveal_strlit("-M");
    reveal_strlit("D+1");
    reveal_strlit("M+1");
    reveal_strlit("M-1");
    reveal_strlit("D+A");
    reveal_strlit("D+M");
    reveal_strlit("D-M");
    reveal_strlit("M-D");
    reveal_strlit("D&M");
    reveal_strlit("D|M");
    match l {
        LineView::Compute(dest, comp, jump) => {
            assert(comp_text(comp).len() > 0 && is_visible(comp_text(comp)[0]));
            assert(dest_text(dest).len() > 0 ==> is_visible(dest_text(dest)[0]));
        },
        _ => {},
    }
}

/// The lines as they stand in the output: without the empty line at their
/// start, if they start with one.
pub open spec fn written_lines(lines: Seq<LineView>) -> Seq<LineView> {
    if lines.len() > 0 && lines[0] is Blank {
        lines.drop_first()
    } else {
        lines
    }
}

/// The text of lines of which one after the first is neither empty nor
/// indented, and of which the first is not indented, is flush, whatever text
/// stands behind it; and without the line break at its start it is the text
/// of the lines without the empty line at their start.
#[verifier::rlimit(60)]
pub proof fn lemma_rendered_flush(lines: Seq<LineView>, at: int, tail: Seq<char>)
    requires
        1 <= at < lines.len(),
        begins_visible(lines[at]),
        lines[0] is Blank || begins_visible(lines[0]),
    ensures
        is_flush(render(lines) + tail),
        without_leading_break(render(lines) + tail) == render(written_lines(lines))
            + tail,
{
    reveal_strlit("\n");
    reveal_strlit("");
    let text = render(lines) + tail;
    let front = lines.take(at);
    let back = lines.skip(at + 1);
    let line = lines[at];
    lemma_line_begins_visible(line);
    assert(lines =~= front + seq![line] + back);
    lemma_render_concat(front + seq![line], back);
    lemma_render_concat(front, seq![line]);
    assert(render(seq![line]) =~= line_text(line) + "\n"@) by {
        assert(seq![line].drop_last() =~= Seq::<LineView>::empty());
        reveal_with_fuel(render, 2);
    }
    assert(front.len() >= 1);
    assert(render(front) == render(front.drop_last()) + line_text(front.last()) + "\n"@);
    let n = render(front).len() as int;
    assert(n >= 1 && render(front)[n - 1] == '\n');
    assert(text[n - 1] == '\n');
    assert(text[n] == line_text(line)[0]);
    let head = seq![lines[0]];
    let rest = lines.drop_first();
    assert(lines =~= head + rest);
    lemma_render_concat(head, rest);
    assert(render(head) =~= line_text(lines[0]) + "\n"@) by {
        assert(head.drop_last() =~= Seq::<LineView>::empty());
        reveal_with_fuel(render, 2);
    }
    if lines[0] is Blank {
        assert(text[0] == '\n');
        assert(text.drop_first() =~= render(rest) + tail);
    } else {
        lemma_line_begins_visible(lines[0]);
        assert(text[0] == line_text(lines[0])[0]);
    }
    lemma_flush(text, n);
}

/// The text of lines of which one after the first is neither empty nor
/// indented, and of which the first is not indented, is flush; and without
/// the line break at its start it is the text of the lines without the empty
/// line at their start.
pub proof fn lemma_lines_flush(lines: Seq<LineView>, at: int)
    requires
        1 <= at < lines.len(),
        begins_visible(lines[at]),
        lines[0] is Blank || begins_visible(lines[0]),
    ensures
        is_flush(render(lines)),
        without_leading_break(render(lines)) == render(written_lines(lines)),
{
    lemma_rendered_flush(lines, at, Seq::empty());
    assert(render(lines) + Seq::<char>::empty() =~= render(lines));
    assert(render(written_lines(lines)) + Seq::<char>::empty() =~= render(written_lines(lines)));
}

/// Lines joined are the lines rendered but for the last line break.
pub proof fn lemma_join_render(lines: Seq<LineView>)
    requires
        lines.len() > 0,
    ensures
        join(lines) == render(lines.drop_last()) + line_text(lines.last()),
    decreases lines.len(),
{
    if lines.len() == 1 {
        assert(render(lines.drop_last()) =~= Seq::<char>::empty());
        assert(join(lines) =~= render(lines.drop_last()) + line_text(lines.last()));
    } else {
        lemma_join_render(lines.drop_last());
        let front = lines.drop_last();
        assert(render(front) =~= render(front.drop_last()) + line_text(front.last()) + "\n"@);
        assert(join(lines) =~= render(lines.drop_last()) + line_text(lines.last()));
    }
}

impl Pointer {
    /// The name of the register in assembly.
    pub fn text(self) -> (s: &'static str)
        ensures
            s@ == pointer_text(self),
    {
        match self {
            Pointer::Sp => "SP",
            Pointer::Lcl => "LCL",
            Pointer::Arg => "ARG",
            Pointer::This => "THIS",
            Pointer::That => "THAT",
        }
    }
}

impl VariableRegister {
    /// The name of the register in assembly.
    pub fn as_ref(&self) -> (s: &'static str)
        ensures
            s@ == register_text(*self),
    {
        match self {
            VariableRegister::R13 => "R13",
            VariableRegister::R14 => "R14",
            VariableRegister::R15 => "R15",
        }
    }
}

impl Dest {
    /// The text of the destination, with the equals sign that follows it.
    pub fn text(self) -> (s: &'static str)
        ensures
            s@ == dest_text(self),
    {
        match self {
            Dest::Nowhere => "",
            Dest::A => "A=",
            Dest::D => "D=",
            Dest::M => "M=",
        }
    }
}

impl Comp {
    /// The text of the computation.
    pub fn text(self) -> (s: &'static str)
        ensures
            s@ == comp_text(self),
    {
        match self {
            Comp::Zero => "0",
            Comp::MinusOne => "-1",
            Comp::D => "D",
            Comp::A => "A",
            Comp::M => "M",
            Comp::NotM => "!M",
            Comp::NegM => "-M",
            Comp::DPlusOne => "D+1",
            Comp::MPlusOne => "M+1",
            Comp::MMinusOne => "M-1",
            Comp::DPlusA => "D+A",
            Comp::DPlusM => "D+M",
            Comp::DMinusM => "D-M",
            Comp::MMinusD => "M-D",
            Comp::DAndM => "D&M",
            Comp::DOrM => "D|M",
        }
    }
}

impl Jump {
    /// The text of the jump, with the semicolon in front of it.
    pub fn text(self) -> (s: &'static str)
        ensures
            s@ == jump_text(self),
    {
        match self {
            Jump::Never => "",
            Jump::IfZero => ";JEQ",
            Jump::IfPositive => ";JGT",
            Jump::IfNegative => ";JLT",
            Jump::IfNotZero => ";JNE",
            Jump::Always => ";JMP",
        }
    }
}

impl Symbol {
    /// The text that names the symbol in assembly.
    pub fn text(&self) -> (s: String)
        ensures
            s@ == symbol_text(self@),
    {
        match self {
            Symbol::Number(n) => decimal_string(*n),
            Symbol::Pointer(p) => p.text().to_owned(),
            Symbol::Variable(r) => r.as_ref().to_owned(),
            Symbol::Frame => "frame".to_owned(),
            Symbol::ReturnTarget => "retAddr".to_owned(),
            Symbol::End => "END".to_owned(),
            Symbol::Static(unit, index) => {
                let mut s = unit.clone();
                s.append(".");
                s.append(decimal_string(*index).as_str());
                s
            },
            Symbol::ReturnAddress(function, id) => {
                let mut s = function.clone();
                s.append("$ret.");
                s.append(decimal_string(*id).as_str());
                s
            },
            Symbol::True(id) => {
                let mut s = "TRUE".to_owned();
                s.append(decimal_string(*id).as_str());
                s
            },
            Symbol::Push(id) => {
                let mut s = "PUSH".to_owned();
                s.append(decimal_string(*id).as_str());
                s
            },
            Symbol::Name(name) => name.clone(),
        }
    }
}

impl Line {
    /// The text of the line, without the line break.
    pub fn text(&self) -> (s: String)
        ensures
            s@ == line_text(self@),
    {
        match self {
            Line::Blank => "".to_owned(),
            Line::Comment(text) => {
                let mut s = "//".to_owned();
                s.append(text.as_str());
                s
            },
            Line::Address(symbol) => {
                let mut s = "@".to_owned();
                s.append(symbol.text().as_str());
                s
            },
            Line::Compute(dest, comp, jump) => {
                let mut s = dest.text().to_owned();
                s.append(comp.text());
                s.append(jump.text());
                s
            },
            Line::Label(symbol) => {
                let mut s = "(".to_owned();
                s.append(symbol.text().as_str());
                s.append(")");
                s
            },
            Line::IndentedComment(text) => {
                let mut s = "        ".to_owned();
                s.append("//");
                s.append(text.as_str());
                s
            },
            Line::IndentedAddress(symbol) => {
                let mut s = "        ".to_owned();
                s.append("@");
                s.append(symbol.text().as_str());
                s
            },
            Line::Indentation => "        ".to_owned(),
        }
    }
}

/// A piece of generated assembly: a list of lines.
#[derive(Clone, Debug, PartialEq, Eq)]
pub struct Fragment {
    pub lines: Vec<Line>,
}

impl View for Fragment {
    type V = Seq<LineView>;

    open spec fn view(&self) -> Seq<LineView> {
        self.lines@.map_values(|l: Line| l@)
    }
}

impl Fragment {
    /// A fragment without lines.
    pub fn new() -> (f: Fragment)
        ensures
            f@ == Seq::<LineView>::empty(),
    {
        let f = Fragment { lines: Vec::new() };
        assert(f@ =~= Seq::<LineView>::empty());
        f
    }

    /// The lines as they stand in the output: without the empty line at
    /// their start, if they start with one.
    pub fn written(self) -> (f: Fragment)
        ensures
            f@ == written_lines(self@),
    {
        let mut f = self;
        let blank = if f.lines.len() > 0 {
            match &f.lines[0] {
                Line::Blank => true,
                _ => false,
            }
        } else {
            false
        };
        if blank {
            let _ = f.lines.remove(0);
            assert(f@ =~= self@.drop_first());
        }
        f
    }

    /// Adds one line at the end.
    pub fn push(&mut self, line: Line)
        ensures
            final(self)@ == old(self)@.push(line@),
    {
        self.lines.push(line);
        assert(self@ =~= old(self)@.push(line@));
    }

    /// Adds an empty line.
    pub fn blank(&mut self)
        ensures
            final(self)@ == old(self)@.push(LineView::Blank),
    {
        self.push(Line::Blank);
    }

    /// Adds a comment.
    pub fn comment(&mut self, text: &str)
        ensures
            final(self)@ == old(self)@.push(LineView::Comment(text@)),
    {
        self.push(Line::Comment(text.to_owned()));
    }

    /// Adds the load of a symbol's address.
    pub fn address(&mut self, symbol: Symbol)
        ensures
            final(self)@ == old(self)@.push(LineView::Address(symbol@)),
    {
        self.push(Line::Address(symbol));
    }

    /// Adds the load of a pointer register's address.
    pub fn pointer(&mut self, p: Pointer)
        ensures
            final(self)@ == old(self)@.push(LineView::Address(SymbolView::Pointer(p))),
    {
        self.push(Line::Address(Symbol::Pointer(p)));
    }

    /// Adds the load of a number.
    pub fn number(&mut self, n: u16)
        ensures
            final(self)@ == old(self)@.push(LineView::Address(SymbolView::Number(n))),
    {
        self.push(Line::Address(Symbol::Number(n)));
    }

    /// Adds `dest=comp`.
    pub fn assign(&mut self, dest: Dest, comp: Comp)
        ensures
            final(self)@ == old(self)@.push(LineView::Compute(dest, comp, Jump::Never)),
    {
        self.push(Line::Compute(dest, comp, Jump::Never));
    }

    /// Adds `comp;jump`.
    pub fn jump(&mut self, comp: Comp, jump: Jump)
        ensures
            final(self)@ == old(self)@.push(LineView::Compute(Dest::Nowhere, comp, jump)),
    {
        self.push(Line::Compute(Dest::Nowhere, comp, jump));
    }

    /// Adds the declaration of a label.
    pub fn label(&mut self, symbol: Symbol)
        ensures
            final(self)@ == old(self)@.push(LineView::Label(symbol@)),
    {
        self.push(Line::Label(symbol));
    }

    /// Adds the lines of `other` at the end.
    pub fn append(&mut self, other: Fragment)
        ensures
            final(self)@ == old(self)@ + other@,
    {
        let mut other = other;
        let ghost added = other@;
        self.lines.append(&mut other.lines);
        assert(self@ =~= old(self)@ + added);
    }

    /// The text of the lines, each followed by a line break.
    pub fn render(&self) -> (s: String)
        ensures
            s@ == render(self@),
    {
        let mut s = String::new();
        let mut i: usize = 0;
        while i < self.lines.len()
            invariant
                i <= self.lines.len(),
                s@ == render(self@.take(i as int)),
            decreases self.lines.len() - i,
        {
            let line = self.lines[i].text();
            proof {
                assert(self@.take(i + 1).drop_last() =~= self@.take(i as int));
                assert(self@.take(i + 1).last() == self.lines@[i as int]@);
            }
            s.append(line.as_str());
            s.append("\n");
            i += 1;
        }
        assert(self@.take(i as int) =~= self@);
        s
    }

    /// The text of the lines, with a line break between each two.
    pub fn join(&self) -> (s: String)
        ensures
            s@ == join(self@),
    {
        let mut s = String::new();
        let mut i: usize = 0;
        while i < self.lines.len()
            invariant
                i <= self.lines.len(),
                s@ == join(self@.take(i as int)),
            decreases self.lines.len() - i,
        {
            let line = self.lines[i].text();
            proof {
                assert(self@.take(i + 1).drop_last() =~= self@.take(i as int));
                assert(self@.take(i + 1).last() == self.lines@[i as int]@);
                assert(self@.take(i + 1)[0] == self@[0]);
            }
            if i > 0 {
                s.append("\n");
            }
            s.append(line.as_str());
            i += 1;
        }
        assert(self@.take(i as int) =~= self@);
        s
    }
}

} // verus!
