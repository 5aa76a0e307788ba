//! The target machine's assembly language: its lines as values, and the one
//! renderer that writes them as text.

use vstd::prelude::*;
use vstd::string::*;
use crate::numeral::{decimal, decimal_string};

verus! {

/// A memory location that the assembler knows by name.
#[derive(Clone, Copy, Debug, PartialEq, Eq, Structural)]
pub enum Reg {
    Sp,
    Lcl,
    Arg,
    This,
    That,
    R13,
    R14,
}

/// Where a computed value goes.
#[derive(Clone, Copy, Debug, PartialEq, Eq, Structural)]
pub enum Dest {
    A,
    D,
    M,
    AM,
}

/// What the machine computes from `A`, `D` and `M` (the cell that `A` points at).
#[derive(Clone, Copy, Debug, PartialEq, Eq, Structural)]
pub enum Comp {
    Zero,
    MinusOne,
    D,
    A,
    M,
    NegM,
    NotM,
    MPlusOne,
    MMinusOne,
    AMinusOne,
    DPlusM,
    DPlusA,
    MMinusD,
    DMinusA,
    DAndM,
    DOrM,
}

/// When a jump is taken, by the sign of the computed value.
#[derive(Clone, Copy, Debug, PartialEq, Eq, Structural)]
pub enum Jump {
    Jeq,
    Jlt,
    Jgt,
    Jne,
    Jmp,
}

/// A label of the generated code. The three generated kinds carry the
/// sequence number of the instruction that they were made for.
#[derive(Clone, Debug, PartialEq, Eq)]
pub enum Label {
    True(u64),
    End(u64),
    Return(u64),
    Named(String),
}

/// One line of assembly.
#[derive(Clone, Debug, PartialEq, Eq)]
pub enum Asm {
    /// `@n`: load a number into `A`.
    AtNum(u64),
    /// `@SP` and the like: load a named location's address into `A`.
    AtReg(Reg),
    /// `@Rn`: load the address of a numbered register.
    AtTemp(u64),
    /// `@unit.n`: load the address of a unit's static variable.
    AtStatic(String, u32),
    /// `@label`: load the address that a label stands for.
    AtLabel(Label),
    /// `(label)`: declare a label at this place.
    Declare(Label),
    /// `dest=comp`.
    Assign(Dest, Comp),
    /// `comp;jump`.
    Branch(Comp, Jump),
}

/// A label as a mathematical value.
pub enum LabelView {
    True(u64),
    End(u64),
    Return(u64),
    Named(Seq<char>),
}

/// A line of assembly as a mathematical value.
pub enum AsmView {
    AtNum(u64),
    AtReg(Reg),
    AtTemp(u64),
    AtStatic(Seq<char>, u32),
    AtLabel(LabelView),
    Declare(LabelView),
    Assign(Dest, Comp),
    Branch(Comp, Jump),
}

impl View for Label {
    type V = LabelView;

    open spec fn view(&self) -> LabelView {
        match self {
            Label::True(n) => LabelView::True(*n),
            Label::End(n) => LabelView::End(*n),
            Label::Return(n) => LabelView::Return(*n),
            Label::Named(s) => LabelView::Named(s@),
        }
    }
}

impl View for Asm {
    type V = AsmView;

    open spec fn view(&self) -> AsmView {
        match self {
            Asm::AtNum(n) => AsmView::AtNum(*n),
            Asm::AtReg(r) => AsmView::AtReg(*r),
            Asm::AtTemp(n) => AsmView::AtTemp(*n),
            Asm::AtStatic(u, n) => AsmView::AtStatic(u@, *n),
            Asm::AtLabel(l) => AsmView::AtLabel(l@),
            Asm::Declare(l) => AsmView::Declare(l@),
            Asm::Assign(d, c) => AsmView::Assign(*d, *c),
            Asm::Branch(c, j) => AsmView::Branch(*c, *j),
        }
    }
}

/// The views of a sequence of lines.
pub open spec fn views(ops: Seq<Asm>) -> Seq<AsmView> {
    Seq::new(ops.len(), |i: int| ops[i]@)
}

/// The name of a location.
pub open spec fn reg_text(r: Reg) -> Seq<char> {
    match r {
        Reg::Sp => "SP"@,
        Reg::Lcl => "LCL"@,
        Reg::Arg => "ARG"@,
        Reg::This => "THIS"@,
        Reg::That => "THAT"@,
        Reg::R13 => "R13"@,
        Reg::R14 => "R14"@,
    }
}

/// How a destination is written.
pub open spec fn dest_text(d: Dest) -> Seq<char> {
    match d {
        Dest::A => "A"@,
        Dest::D => "D"@,
        Dest::M => "M"@,
        Dest::AM => "AM"@,
    }
}

/// How a computation is written.
pub open spec fn comp_text(c: Comp) -> Seq<char> {
    match c {
        Comp::Zero => "0"@,
        Comp::MinusOne => "-1"@,
        Comp::D => "D"@,
        Comp::A => "A"@,
        Comp::M => "M"@,
        Comp::NegM => "-M"@,
        Comp::NotM => "!M"@,
        Comp::MPlusOne => "M+1"@,
        Comp::MMinusOne => "M-1"@,
        Comp::AMinusOne => "A-1"@,
        Comp::DPlusM => "D+M"@,
        Comp::DPlusA => "D+A"@,
        Comp::MMinusD => "M-D"@,
        Comp::DMinusA => "D-A"@,
        Comp::DAndM => "D&M"@,
        Comp::DOrM => "D|M"@,
    }
}

/// How a jump condition is written.
pub open spec fn jump_text(j: Jump) -> Seq<char> {
    match j {
        Jump::Jeq => "JEQ"@,
        Jump::Jlt => "JLT"@,
        Jump::Jgt => "JGT"@,
        Jump::Jne => "JNE"@,
        Jump::Jmp => "JMP"@,
    }
}

/// The symbol that a label is written as.
pub open spec fn label_text(l: LabelView) -> Seq<char> {
    match l {
        LabelView::True(n) => "true"@ + decimal(n as nat),
        LabelView::End(n) => "end"@ + decimal(n as nat),
        LabelView::Return(n) => "ret"@ + decimal(n as nat),
        LabelView::Named(s) => s,
    }
}

/// The text of one line.
pub open spec fn line_text(a: AsmView) -> Seq<char> {
    match a {
        AsmView::AtNum(n) => "@"@ + decimal(n as nat),
        AsmView::AtReg(r) => "@"@ + reg_text(r),
        AsmView::AtTemp(n) => "@R"@ + decimal(n as nat),
        AsmView::AtStatic(u, n) => "@"@ + u + "."@ + decimal(n as nat),
        AsmView::AtLabel(l) => "@"@ + label_text(l),
        AsmView::Declare(l) => "("@ + label_text(l) + ")"@,
        AsmView::Assign(d, c) => dest_text(d) + "="@ + comp_text(c),
        AsmView::Branch(c, j) => comp_text(c) + ";"@ + jump_text(j),
    }
}

/// The text of a block: its lines, with a line feed between each two.
pub open spec fn block_text(b: Seq<AsmView>) -> Seq<char>
    decreases b.len(),
{
    if b.len() == 0 {
        Seq::empty()
    } else if b.len() == 1 {
        line_text(b[0])
    } else {
        block_text(b.drop_last()) + "\n"@ + line_text(b.last())
    }
}

fn reg_name(r: Reg) -> (s: &'static str)
    ensures
        s@ == reg_text(r),
{
    match r {
        Reg::Sp => "SP",
        Reg::Lcl => "LCL",
        Reg::Arg => "ARG",
        Reg::This => "THIS",
        Reg::That => "THAT",
        Reg::R13 => "R13",
        Reg::R14 => "R14",
    }
}

fn dest_name(d: Dest) -> (s: &'static str)
    ensures
        s@ == dest_text(d),
{
    match d {
        Dest::A => "A",
        Dest::D => "D",
        Dest::M => "M",
        Dest::AM => "AM",
    }
}

fn comp_name(c: Comp) -> (s: &'static str)
    ensures
        s@ == comp_text(c),
{
    match c {
        Comp::Zero => "0",
        Comp::MinusOne => "-1",
        Comp::D => "D",
        Comp::A => "A",
        Comp::M => "M",
        Comp::NegM => "-M",
        Comp::NotM => "!M",
        Comp::MPlusOne => "M+1",
        Comp::MMinusOne => "M-1",
        Comp::AMinusOne => "A-1",
        Comp::DPlusM => "D+M",
        Comp::DPlusA => "D+A",
        Comp::MMinusD => "M-D",
        Comp::DMinusA => "D-A",
        Comp::DAndM => "D&M",
        Comp::DOrM => "D|M",
    }
}

fn jump_name(j: Jump) -> (s: &'static str)
    ensures
        s@ == jump_text(j),
{
    match j {
        Jump::Jeq => "JEQ",
        Jump::Jlt => "JLT",
        Jump::Jgt => "JGT",
        Jump::Jne => "JNE",
        Jump::Jmp => "JMP",
    }
}

/// Writes a label as the symbol that the assembler will see.
pub fn render_label(l: &Label) -> (r: String)
    ensures
        r@ == label_text(l@),
{
    match l {
        Label::True(n) => String::from_str("true").concat(decimal_string(*n).as_str()),
        Label::End(n) => String::from_str("end").concat(decimal_string(*n).as_str()),
        Label::Return(n) => String::from_str("ret").concat(decimal_string(*n).as_str()),
        Label::Named(s) => s.clone(),
    }
}

/// Writes one line.
pub fn render_line(a: &Asm) -> (r: String)
    ensures
        r@ == line_text(a@),
{
    match a {
        Asm::AtNum(n) => String::from_str("@").concat(decimal_string(*n).as_str()),
        Asm::AtReg(r) => String::from_str("@").concat(reg_name(*r)),
        Asm::AtTemp(n) => String::from_str("@R").concat(decimal_string(*n).as_str()),
        Asm::AtStatic(u, n) => String::from_str("@").concat(u.as_str()).concat(".").concat(
            decimal_string(*n as u64).as_str(),
        ),
        Asm::AtLabel(l) => String::from_str("@").concat(render_label(l).as_str()),
        Asm::Declare(l) => String::from_str("(").concat(render_label(l).as_str()).concat(")"),
        Asm::Assign(d, c) => String::from_str(dest_name(*d)).concat("=").concat(comp_name(*c)),
        Asm::Branch(c, j) => String::from_str(comp_name(*c)).concat(";").concat(jump_name(*j)),
    }
}

/// Writes a block: every line in order, with a line feed between each two
/// and none at either end.
pub fn render(ops: &Vec<Asm>) -> (r: String)
    ensures
        r@ == block_text(views(ops@)),
{
    let mut out = String::new();
    let mut i: usize = 0;
    proof {
        assert(views(ops@).take(0) =~= Seq::<AsmView>::empty());
    }
    while i < ops.len()
        invariant
            i <= ops.len(),
            out@ == block_text(views(ops@).take(i as int)),
        decreases ops.len() - i,
    {
        let line = render_line(&ops[i]);
        proof {
            let next = views(ops@).take(i as int + 1);
            assert(next.drop_last() =~= views(ops@).take(i as int));
            assert(next.last() == ops@[i as int]@);
            if i == 0 {
                assert(out@ + line@ =~= line@);
            }
        }
        if i > 0 {
            out.append("\n");
        }
        out.append(line.as_str());
        i += 1;
    }
    proof {
        assert(views(ops@).take(ops@.len() as int) =~= views(ops@));
    }
    out
}

} // verus!
