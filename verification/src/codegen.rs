//! The code generator: the block of assembly that stands for each instruction.
//!
//! The stack grows upwards from the cell that `SP` points at; `SP` always
//! points at the first free cell.

use vstd::prelude::*;
use vstd::string::*;
use crate::assembly::{
    Asm, AsmView, Comp, Dest, Jump, Label, LabelView, Reg, block_text, render, views,
};
use crate::instruction::{CommandType, Instruction, LineParsing, Mnemonic, Segment, TranslateError};

verus! {

/// Takes the top of the stack into `D`.
pub open spec fn pop_to_d() -> Seq<AsmView> {
    seq![
        AsmView::AtReg(Reg::Sp),
        AsmView::Assign(Dest::AM, Comp::MMinusOne),
        AsmView::Assign(Dest::D, Comp::M),
    ]
}

/// Puts `D` on the stack.
pub open spec fn push_d() -> Seq<AsmView> {
    seq![
        AsmView::AtReg(Reg::Sp),
        AsmView::Assign(Dest::A, Comp::M),
        AsmView::Assign(Dest::M, Comp::D),
        AsmView::AtReg(Reg::Sp),
        AsmView::Assign(Dest::M, Comp::MPlusOne),
    ]
}

/// Puts a zero on the stack.
pub open spec fn push_zero() -> Seq<AsmView> {
    seq![
        AsmView::AtReg(Reg::Sp),
        AsmView::Assign(Dest::A, Comp::M),
        AsmView::Assign(Dest::M, Comp::Zero),
        AsmView::AtReg(Reg::Sp),
        AsmView::Assign(Dest::M, Comp::MPlusOne),
    ]
}

/// Puts what a named location holds on the stack.
pub open spec fn push_reg(r: Reg) -> Seq<AsmView> {
    seq![AsmView::AtReg(r), AsmView::Assign(Dest::D, Comp::M)] + push_d()
}

/// Takes the top of the stack into a named location.
pub open spec fn pop_reg(r: Reg) -> Seq<AsmView> {
    pop_to_d() + seq![AsmView::AtReg(r), AsmView::Assign(Dest::M, Comp::D)]
}

/// A binary operation: the top cell leaves the stack, and the cell below
/// it takes `c`, computed from both.
pub open spec fn binary_block(c: Comp) -> Seq<AsmView> {
    pop_to_d() + seq![AsmView::Assign(Dest::A, Comp::AMinusOne), AsmView::Assign(Dest::M, c)]
}

/// A unary operation: the top cell takes `c`, computed from itself.
pub open spec fn unary_block(c: Comp) -> Seq<AsmView> {
    seq![
        AsmView::AtReg(Reg::Sp),
        AsmView::Assign(Dest::A, Comp::MMinusOne),
        AsmView::Assign(Dest::M, c),
    ]
}

/// What a comparison does once the upper cell is in `D`.
pub open spec fn compare_tail(j: Jump, n: u64) -> Seq<AsmView> {
    seq![
        AsmView::Assign(Dest::A, Comp::AMinusOne),
        AsmView::Assign(Dest::D, Comp::MMinusD),
        AsmView::AtLabel(LabelView::True(n)),
        AsmView::Branch(Comp::D, j),
        AsmView::AtReg(Reg::Sp),
        AsmView::Assign(Dest::A, Comp::MMinusOne),
        AsmView::Assign(Dest::M, Comp::Zero),
        AsmView::AtLabel(LabelView::End(n)),
        AsmView::Branch(Comp::D, Jump::Jmp),
        AsmView::Declare(LabelView::True(n)),
        AsmView::AtReg(Reg::Sp),
        AsmView::Assign(Dest::A, Comp::MMinusOne),
        AsmView::Assign(Dest::M, Comp::MinusOne),
        AsmView::Declare(LabelView::End(n)),
    ]
}

/// A comparison: the two top cells give way to -1 where the difference of
/// the lower and the upper meets `j`, and to 0 where it does not. The two
/// labels carry the instruction's sequence number `n`.
pub open spec fn compare_block(j: Jump, n: u64) -> Seq<AsmView> {
    pop_to_d() + compare_tail(j, n)
}

/// The block of an arithmetic or logical instruction.
pub open spec fn arithmetic_block(m: Mnemonic, n: u64) -> Seq<AsmView> {
    match m {
        Mnemonic::Add => binary_block(Comp::DPlusM),
        Mnemonic::Sub => binary_block(Comp::MMinusD),
        Mnemonic::And => binary_block(Comp::DAndM),
        Mnemonic::Or => binary_block(Comp::DOrM),
        Mnemonic::Neg => unary_block(Comp::NegM),
        Mnemonic::Not => unary_block(Comp::NotM),
        Mnemonic::Eq => compare_block(Jump::Jeq, n),
        Mnemonic::Lt => compare_block(Jump::Jlt, n),
        Mnemonic::Gt => compare_block(Jump::Jgt, n),
        _ => Seq::empty(),
    }
}

/// The location that holds the base of an indirect segment.
pub open spec fn base_of(s: Segment) -> Reg {
    match s {
        Segment::Local => Reg::Lcl,
        Segment::Argument => Reg::Arg,
        Segment::This => Reg::This,
        _ => Reg::That,
    }
}

/// The location that an offset into the `pointer` segment selects.
pub open spec fn pointer_reg(offset: u32) -> Reg {
    if offset == 0 {
        Reg::This
    } else {
        Reg::That
    }
}

/// Puts the number `n` on the stack.
pub open spec fn push_constant_block(n: u32) -> Seq<AsmView> {
    seq![AsmView::AtNum(n as u64), AsmView::Assign(Dest::D, Comp::A)] + push_d()
}

/// Puts on the stack the cell `n` cells above where `base` points.
pub open spec fn push_offset_block(base: Reg, n: u32) -> Seq<AsmView> {
    seq![
        AsmView::AtNum(n as u64),
        AsmView::Assign(Dest::D, Comp::A),
        AsmView::AtReg(base),
        AsmView::Assign(Dest::A, Comp::M),
        AsmView::Assign(Dest::A, Comp::DPlusA),
        AsmView::Assign(Dest::D, Comp::M),
    ] + push_d()
}

/// Puts on the stack the temporary `n`, which is the register `n + 5`.
pub open spec fn push_temp_block(n: u32) -> Seq<AsmView> {
    seq![AsmView::AtTemp((n + 5) as u64), AsmView::Assign(Dest::D, Comp::M)] + push_d()
}

/// Puts on the stack the static variable `n` of `unit`.
pub open spec fn push_static_block(unit: Seq<char>, n: u32) -> Seq<AsmView> {
    seq![AsmView::AtStatic(unit, n), AsmView::Assign(Dest::D, Comp::M)] + push_d()
}

/// Takes the top of the stack into the cell `n` cells above where `base`
/// points. The address waits in `R13` while the stack is read.
pub open spec fn pop_offset_block(base: Reg, n: u32) -> Seq<AsmView> {
    seq![
        AsmView::AtNum(n as u64),
        AsmView::Assign(Dest::D, Comp::A),
        AsmView::AtReg(base),
        AsmView::Assign(Dest::D, Comp::DPlusM),
        AsmView::AtReg(Reg::R13),
        AsmView::Assign(Dest::M, Comp::D),
    ] + pop_to_d() + seq![
        AsmView::AtReg(Reg::R13),
        AsmView::Assign(Dest::A, Comp::M),
        AsmView::Assign(Dest::M, Comp::D),
    ]
}

/// Takes the top of the stack into the temporary `n`, which is the
/// register `n + 5`.
pub open spec fn pop_temp_block(n: u32) -> Seq<AsmView> {
    pop_to_d() + seq![AsmView::AtTemp((n + 5) as u64), AsmView::Assign(Dest::M, Comp::D)]
}

/// Takes the top of the stack into the static variable `n` of `unit`.
pub open spec fn pop_static_block(unit: Seq<char>, n: u32) -> Seq<AsmView> {
    pop_to_d() + seq![AsmView::AtStatic(unit, n), AsmView::Assign(Dest::M, Comp::D)]
}

/// The block of a `push`, or why there is none.
pub open spec fn push_block(i: Instruction) -> Result<Seq<AsmView>, TranslateError>
    recommends
        i.offset is Some,
{
    let n = i.offset->0;
    match i.segment {
        None => Err(TranslateError::MissingSegment),
        Some(Segment::Constant) => Ok(push_constant_block(n)),
        Some(Segment::Temp) => Ok(push_temp_block(n)),
        Some(Segment::Static) => Ok(push_static_block(i.file_name, n)),
        Some(Segment::Pointer) => if n <= 1 {
            Ok(push_reg(pointer_reg(n)))
        } else {
            Err(TranslateError::InvalidPointerIndex)
        },
        Some(s) => Ok(push_offset_block(base_of(s), n)),
    }
}

/// The block of a `pop`, or why there is none.
pub open spec fn pop_block(i: Instruction) -> Result<Seq<AsmView>, TranslateError>
    recommends
        i.offset is Some,
{
    let n = i.offset->0;
    match i.segment {
        None => Err(TranslateError::MissingSegment),
        Some(Segment::Constant) => Err(TranslateError::IllegalPopTarget),
        Some(Segment::Temp) => Ok(pop_temp_block(n)),
        Some(Segment::Static) => Ok(pop_static_block(i.file_name, n)),
        Some(Segment::Pointer) => if n <= 1 {
            Ok(pop_reg(pointer_reg(n)))
        } else {
            Err(TranslateError::InvalidPointerIndex)
        },
        Some(s) => Ok(pop_offset_block(base_of(s), n)),
    }
}

/// Declares the label `l`.
pub open spec fn label_block(l: Seq<char>) -> Seq<AsmView> {
    seq![AsmView::Declare(LabelView::Named(l))]
}

/// Jumps to the label `l`.
pub open spec fn goto_block(l: Seq<char>) -> Seq<AsmView> {
    seq![AsmView::AtLabel(LabelView::Named(l)), AsmView::Branch(Comp::Zero, Jump::Jmp)]
}

/// Takes the top of the stack and jumps to `l` where it is not zero.
pub open spec fn if_goto_block(l: Seq<char>) -> Seq<AsmView> {
    pop_to_d() + seq![AsmView::AtLabel(LabelView::Named(l)), AsmView::Branch(Comp::D, Jump::Jne)]
}

/// The block of a branch instruction.
pub open spec fn branch_block(m: Mnemonic, l: Seq<char>) -> Seq<AsmView> {
    match m {
        Mnemonic::Label => label_block(l),
        Mnemonic::Goto => goto_block(l),
        _ => if_goto_block(l),
    }
}

/// `k` zeros put on the stack, one after the other.
pub open spec fn zero_cells(k: nat) -> Seq<AsmView>
    decreases k,
{
    if k == 0 {
        Seq::empty()
    } else {
        zero_cells((k - 1) as nat) + push_zero()
    }
}

/// The entry of a function: its label, then a zero for each of its locals.
pub open spec fn function_block(name: Seq<char>, locals: u32) -> Seq<AsmView> {
    seq![AsmView::Declare(LabelView::Named(name))] + zero_cells(locals as nat)
}

/// The end of a call: `ARG` and `LCL` take their new places, then comes
/// the jump, and behind it the return label.
pub open spec fn call_tail(name: Seq<char>, args: u32, n: u64) -> Seq<AsmView> {
    seq![
        AsmView::AtNum(5),
        AsmView::Assign(Dest::D, Comp::A),
        AsmView::AtReg(Reg::Sp),
        AsmView::Assign(Dest::D, Comp::MMinusD),
        AsmView::AtNum(args as u64),
        AsmView::Assign(Dest::D, Comp::DMinusA),
        AsmView::AtReg(Reg::Arg),
        AsmView::Assign(Dest::M, Comp::D),
        AsmView::AtReg(Reg::Sp),
        AsmView::Assign(Dest::D, Comp::M),
        AsmView::AtReg(Reg::Lcl),
        AsmView::Assign(Dest::M, Comp::D),
        AsmView::AtLabel(LabelView::Named(name)),
        AsmView::Branch(Comp::Zero, Jump::Jmp),
        AsmView::Declare(LabelView::Return(n)),
    ]
}

/// A call. The return address and the caller's `LCL`, `ARG`, `THIS` and
/// `THAT` go on the stack, in that order; `ARG` moves to the first of the
/// `args` cells below them and `LCL` to the top of the stack; then comes
/// the jump, and behind it the label that the callee returns to.
pub open spec fn call_block(name: Seq<char>, args: u32, n: u64) -> Seq<AsmView> {
    seq![AsmView::AtLabel(LabelView::Return(n)), AsmView::Assign(Dest::D, Comp::A)] + push_d()
        + push_reg(Reg::Lcl) + push_reg(Reg::Arg) + push_reg(Reg::This) + push_reg(Reg::That)
        + call_tail(name, args, n)
}

/// Steps the frame reference in `R13` one cell down and copies the cell
/// that it then points at into `r`.
pub open spec fn restore_reg(r: Reg) -> Seq<AsmView> {
    seq![
        AsmView::AtReg(Reg::R13),
        AsmView::Assign(Dest::AM, Comp::MMinusOne),
        AsmView::Assign(Dest::D, Comp::M),
        AsmView::AtReg(r),
        AsmView::Assign(Dest::M, Comp::D),
    ]
}

/// A return. `R13` takes the frame reference (`LCL`) and `R14` the return
/// address from five cells below it; the returned value moves to where
/// `ARG` points and `SP` to the cell after it; `THAT`, `THIS`, `ARG` and
/// `LCL` come back from the four cells below the frame reference; then
/// comes the jump to the return address.
pub open spec fn return_block() -> Seq<AsmView> {
    seq![
        AsmView::AtReg(Reg::Lcl),
        AsmView::Assign(Dest::D, Comp::M),
        AsmView::AtReg(Reg::R13),
        AsmView::Assign(Dest::M, Comp::D),
        AsmView::AtNum(5),
        AsmView::Assign(Dest::A, Comp::DMinusA),
        AsmView::Assign(Dest::D, Comp::M),
        AsmView::AtReg(Reg::R14),
        AsmView::Assign(Dest::M, Comp::D),
    ] + pop_to_d() + seq![
        AsmView::AtReg(Reg::Arg),
        AsmView::Assign(Dest::A, Comp::M),
        AsmView::Assign(Dest::M, Comp::D),
        AsmView::AtReg(Reg::Arg),
        AsmView::Assign(Dest::D, Comp::MPlusOne),
        AsmView::AtReg(Reg::Sp),
        AsmView::Assign(Dest::M, Comp::D),
    ] + restore_reg(Reg::That) + restore_reg(Reg::This) + restore_reg(Reg::Arg) + restore_reg(
        Reg::Lcl,
    ) + seq![
        AsmView::AtReg(Reg::R14),
        AsmView::Assign(Dest::A, Comp::M),
        AsmView::Branch(Comp::Zero, Jump::Jmp),
    ]
}

/// The block of an instruction of the function family.
pub open spec fn function_family_block(i: Instruction) -> Seq<AsmView>
    recommends
        i.well_formed(),
{
    match i.mnemonic {
        Mnemonic::Function => function_block(i.label_text->0, i.offset->0),
        Mnemonic::Call => call_block(i.label_text->0, i.offset->0, i.line_num),
        _ => return_block(),
    }
}

/// The block that stands for an instruction, or why there is none.
pub open spec fn generate(i: Instruction) -> Result<Seq<AsmView>, TranslateError>
    recommends
        i.well_formed(),
{
    match i.mnemonic.command_type() {
        CommandType::Arithmetic => Ok(arithmetic_block(i.mnemonic, i.line_num)),
        CommandType::Push => push_block(i),
        CommandType::Pop => pop_block(i),
        CommandType::Branching => Ok(branch_block(i.mnemonic, i.label_text->0)),
        CommandType::Function => Ok(function_family_block(i)),
    }
}

/// A generator's result as a mathematical value.
pub open spec fn generated(r: Result<String, TranslateError>) -> Result<Seq<char>, TranslateError> {
    match r {
        Ok(s) => Ok(s@),
        Err(e) => Err(e),
    }
}

/// The text of a block, where there is one.
pub open spec fn rendered(b: Result<Seq<AsmView>, TranslateError>) -> Result<
    Seq<char>,
    TranslateError,
> {
    match b {
        Ok(ops) => Ok(block_text(ops)),
        Err(e) => Err(e),
    }
}

fn append_ops(v: &mut Vec<Asm>, more: Vec<Asm>)
    ensures
        views(final(v)@) == views(old(v)@) + views(more@),
{
    let mut more = more;
    let ghost before = v@;
    let ghost added = more@;
    v.append(&mut more);
    proof {
        assert(views(v@) =~= views(before) + views(added));
    }
}

fn pop_to_d_ops() -> (v: Vec<Asm>)
    ensures
        views(v@) == pop_to_d(),
{
    let v = vec![
        Asm::AtReg(Reg::Sp),
        Asm::Assign(Dest::AM, Comp::MMinusOne),
        Asm::Assign(Dest::D, Comp::M),
    ];
    proof {
        assert(views(v@) =~= pop_to_d());
    }
    v
}

fn push_d_ops() -> (v: Vec<Asm>)
    ensures
        views(v@) == push_d(),
{
    let v = vec![
        Asm::AtReg(Reg::Sp),
        Asm::Assign(Dest::A, Comp::M),
        Asm::Assign(Dest::M, Comp::D),
        Asm::AtReg(Reg::Sp),
        Asm::Assign(Dest::M, Comp::MPlusOne),
    ];
    proof {
        assert(views(v@) =~= push_d());
    }
    v
}

fn push_zero_ops() -> (v: Vec<Asm>)
    ensures
        views(v@) == push_zero(),
{
    let v = vec![
        Asm::AtReg(Reg::Sp),
        Asm::Assign(Dest::A, Comp::M),
        Asm::Assign(Dest::M, Comp::Zero),
        Asm::AtReg(Reg::Sp),
        Asm::Assign(Dest::M, Comp::MPlusOne),
    ];
    proof {
        assert(views(v@) =~= push_zero());
    }
    v
}

/// `head`, then the lines that put `D` on the stack.
fn then_push_d(head: Vec<Asm>) -> (v: Vec<Asm>)
    ensures
        views(v@) == views(head@) + push_d(),
{
    let mut v = head;
    append_ops(&mut v, push_d_ops());
    v
}

/// The lines that take the top of the stack into `D`, then `tail`.
fn pop_to_d_then(tail: Vec<Asm>) -> (v: Vec<Asm>)
    ensures
        views(v@) == pop_to_d() + views(tail@),
{
    let mut v = pop_to_d_ops();
    append_ops(&mut v, tail);
    v
}

fn push_reg_ops(r: Reg) -> (v: Vec<Asm>)
    ensures
        views(v@) == push_reg(r),
{
    let head = vec![Asm::AtReg(r), Asm::Assign(Dest::D, Comp::M)];
    proof {
        assert(views(head@) =~= seq![AsmView::AtReg(r), AsmView::Assign(Dest::D, Comp::M)]);
    }
    then_push_d(head)
}

fn pop_reg_ops(r: Reg) -> (v: Vec<Asm>)
    ensures
        views(v@) == pop_reg(r),
{
    let tail = vec![Asm::AtReg(r), Asm::Assign(Dest::M, Comp::D)];
    proof {
        assert(views(tail@) =~= seq![AsmView::AtReg(r), AsmView::Assign(Dest::M, Comp::D)]);
    }
    pop_to_d_then(tail)
}

fn restore_reg_ops(r: Reg) -> (v: Vec<Asm>)
    ensures
        views(v@) == restore_reg(r),
{
    let v = vec![
        Asm::AtReg(Reg::R13),
        Asm::Assign(Dest::AM, Comp::MMinusOne),
        Asm::Assign(Dest::D, Comp::M),
        Asm::AtReg(r),
        Asm::Assign(Dest::M, Comp::D),
    ];
    proof {
        assert(views(v@) =~= restore_reg(r));
    }
    v
}

fn binary_text(c: Comp) -> (r: String)
    ensures
        r@ == block_text(binary_block(c)),
{
    let tail = vec![Asm::Assign(Dest::A, Comp::AMinusOne), Asm::Assign(Dest::M, c)];
    proof {
        assert(views(tail@) =~= seq![
            AsmView::Assign(Dest::A, Comp::AMinusOne),
            AsmView::Assign(Dest::M, c),
        ]);
    }
    render(&pop_to_d_then(tail))
}

fn unary_text(c: Comp) -> (r: String)
    ensures
        r@ == block_text(unary_block(c)),
{
    let v = vec![
        Asm::AtReg(Reg::Sp),
        Asm::Assign(Dest::A, Comp::MMinusOne),
        Asm::Assign(Dest::M, c),
    ];
    proof {
        assert(views(v@) =~= unary_block(c));
    }
    render(&v)
}

fn compare_text(j: Jump, n: u64) -> (r: String)
    ensures
        r@ == block_text(compare_block(j, n)),
{
    let tail = vec![
        Asm::Assign(Dest::A, Comp::AMinusOne),
        Asm::Assign(Dest::D, Comp::MMinusD),
        Asm::AtLabel(Label::True(n)),
        Asm::Branch(Comp::D, j),
        Asm::AtReg(Reg::Sp),
        Asm::Assign(Dest::A, Comp::MMinusOne),
        Asm::Assign(Dest::M, Comp::Zero),
        Asm::AtLabel(Label::End(n)),
        Asm::Branch(Comp::D, Jump::Jmp),
        Asm::Declare(Label::True(n)),
        Asm::AtReg(Reg::Sp),
        Asm::Assign(Dest::A, Comp::MMinusOne),
        Asm::Assign(Dest::M, Comp::MinusOne),
        Asm::Declare(Label::End(n)),
    ];
    proof {
        assert(views(tail@) =~= seq![
            AsmView::Assign(Dest::A, Comp::AMinusOne),
            AsmView::Assign(Dest::D, Comp::MMinusD),
            AsmView::AtLabel(LabelView::True(n)),
            AsmView::Branch(Comp::D, j),
            AsmView::AtReg(Reg::Sp),
            AsmView::Assign(Dest::A, Comp::MMinusOne),
            AsmView::Assign(Dest::M, Comp::Zero),
            AsmView::AtLabel(LabelView::End(n)),
            AsmView::Branch(Comp::D, Jump::Jmp),
            AsmView::Declare(LabelView::True(n)),
            AsmView::AtReg(Reg::Sp),
            AsmView::Assign(Dest::A, Comp::MMinusOne),
            AsmView::Assign(Dest::M, Comp::MinusOne),
            AsmView::Declare(LabelView::End(n)),
        ]);
    }
    render(&pop_to_d_then(tail))
}

fn base_register(s: Segment) -> (r: Reg)
    ensures
        r == base_of(s),
{
    match s {
        Segment::Local => Reg::Lcl,
        Segment::Argument => Reg::Arg,
        Segment::This => Reg::This,
        _ => Reg::That,
    }
}

impl LineParsing {
    /// The offset, or the count, that the instruction carries.
    fn operand(&self) -> (n: u32)
        requires
            self.offset is Some,
        ensures
            n == self@.offset->0,
    {
        match self.offset {
            Some(n) => n,
            None => 0,
        }
    }

    /// The label, or the function's name, that the instruction carries.
    fn name(&self) -> (s: String)
        requires
            self.label_text is Some,
        ensures
            s@ == self@.label_text->0,
    {
        match &self.label_text {
            Some(s) => s.clone(),
            None => String::new(),
        }
    }

    /// Translates the instruction: the text of its block, lines parted by
    /// line feeds, or the error that forbids it. Nothing is written for an
    /// instruction that fails.
    pub fn parse(&self) -> (r: Result<String, TranslateError>)
        requires
            self@.well_formed(),
        ensures
            generated(r) == rendered(generate(self@)),
            self.mnemonic == Mnemonic::Pop && self.segment == Some(Segment::Constant) ==> r
                == Err::<String, TranslateError>(TranslateError::IllegalPopTarget),
    {
        match self.mnemonic.family() {
            CommandType::Pop => self.pop(),
            CommandType::Push => self.push(),
            CommandType::Arithmetic => Ok(self.arithmitic()),
            CommandType::Branching => Ok(self.branching()),
            CommandType::Function => Ok(self.function_parse()),
        }
    }

    /// The block of a branch instruction.
    pub fn branching(&self) -> (r: String)
        requires
            self.mnemonic.command_type() == CommandType::Branching,
            self.label_text is Some,
        ensures
            r@ == block_text(branch_block(self.mnemonic, self@.label_text->0)),
    {
        match self.mnemonic {
            Mnemonic::Label => self.label(),
            Mnemonic::Goto => self.goto(),
            _ => self.if_goto(),
        }
    }

    /// The block of `function`, `call` or `return`.
    pub fn function_parse(&self) -> (r: String)
        requires
            self.mnemonic.command_type() == CommandType::Function,
            self@.well_formed(),
        ensures
            r@ == block_text(function_family_block(self@)),
    {
        match self.mnemonic {
            Mnemonic::Function => self.init_function(),
            Mnemonic::Call => self.call(),
            _ => self.function_return(),
        }
    }

    /// The entry of a function: its label, and a zero on the stack for
    /// each local variable.
    pub fn init_function(&self) -> (r: String)
        requires
            self.label_text is Some,
            self.offset is Some,
        ensures
            r@ == block_text(function_block(self@.label_text->0, self@.offset->0)),
    {
        let locals = self.operand();
        let mut v = vec![Asm::Declare(Label::Named(self.name()))];
        let ghost head = views(v@);
        proof {
            assert(head =~= seq![AsmView::Declare(LabelView::Named(self@.label_text->0))]);
            assert(head + zero_cells(0) =~= head);
        }
        let mut k: u32 = 0;
        while k < locals
            invariant
                k <= locals,
                views(v@) == head + zero_cells(k as nat),
            decreases locals - k,
        {
            append_ops(&mut v, push_zero_ops());
            proof {
                assert((head + zero_cells(k as nat)) + push_zero() =~= head + zero_cells(
                    (k + 1) as nat,
                ));
            }
            k += 1;
        }
        render(&v)
    }

    /// A call of a function: the caller's frame is saved, the callee's is
    /// set up, and the return label is declared behind the jump.
    pub fn call(&self) -> (r: String)
        requires
            self.label_text is Some,
            self.offset is Some,
        ensures
            r@ == block_text(call_block(self@.label_text->0, self@.offset->0, self.line_num)),
    {
        let n = self.line_num;
        let head = vec![Asm::AtLabel(Label::Return(n)), Asm::Assign(Dest::D, Comp::A)];
        proof {
            assert(views(head@) =~= seq![
                AsmView::AtLabel(LabelView::Return(n)),
                AsmView::Assign(Dest::D, Comp::A),
            ]);
        }
        let mut v = then_push_d(head);
        append_ops(&mut v, push_reg_ops(Reg::Lcl));
        append_ops(&mut v, push_reg_ops(Reg::Arg));
        append_ops(&mut v, push_reg_ops(Reg::This));
        append_ops(&mut v, push_reg_ops(Reg::That));
        let tail = vec![
            Asm::AtNum(5),
            Asm::Assign(Dest::D, Comp::A),
            Asm::AtReg(Reg::Sp),
            Asm::Assign(Dest::D, Comp::MMinusD),
            Asm::AtNum(self.operand() as u64),
            Asm::Assign(Dest::D, Comp::DMinusA),
            Asm::AtReg(Reg::Arg),
            Asm::Assign(Dest::M, Comp::D),
            Asm::AtReg(Reg::Sp),
            Asm::Assign(Dest::D, Comp::M),
            Asm::AtReg(Reg::Lcl),
            Asm::Assign(Dest::M, Comp::D),
            Asm::AtLabel(Label::Named(self.name())),
            Asm::Branch(Comp::Zero, Jump::Jmp),
            Asm::Declare(Label::Return(n)),
        ];
        proof {
            assert(views(tail@) =~= seq![
                AsmView::AtNum(5),
                AsmView::Assign(Dest::D, Comp::A),
                AsmView::AtReg(Reg::Sp),
                AsmView::Assign(Dest::D, Comp::MMinusD),
                AsmView::AtNum(self@.offset->0 as u64),
                AsmView::Assign(Dest::D, Comp::DMinusA),
                AsmView::AtReg(Reg::Arg),
                AsmView::Assign(Dest::M, Comp::D),
                AsmView::AtReg(Reg::Sp),
                AsmView::Assign(Dest::D, Comp::M),
                AsmView::AtReg(Reg::Lcl),
                AsmView::Assign(Dest::M, Comp::D),
                AsmView::AtLabel(LabelView::Named(self@.label_text->0)),
                AsmView::Branch(Comp::Zero, Jump::Jmp),
                AsmView::Declare(LabelView::Return(n)),
            ]);
        }
        append_ops(&mut v, tail);
        render(&v)
    }

    /// A return to the caller: the returned value takes the place of the
    /// first argument, and the caller's frame comes back.
    pub fn function_return(&self) -> (r: String)
        ensures
            r@ == block_text(return_block()),
    {
        let head = vec![
            Asm::AtReg(Reg::Lcl),
            Asm::Assign(Dest::D, Comp::M),
            Asm::AtReg(Reg::R13),
            Asm::Assign(Dest::M, Comp::D),
            Asm::AtNum(5),
            Asm::Assign(Dest::A, Comp::DMinusA),
            Asm::Assign(Dest::D, Comp::M),
            Asm::AtReg(Reg::R14),
            Asm::Assign(Dest::M, Comp::D),
        ];
        proof {
            assert(views(head@) =~= seq![
                AsmView::AtReg(Reg::Lcl),
                AsmView::Assign(Dest::D, Comp::M),
                AsmView::AtReg(Reg::R13),
                AsmView::Assign(Dest::M, Comp::D),
                AsmView::AtNum(5),
                AsmView::Assign(Dest::A, Comp::DMinusA),
                AsmView::Assign(Dest::D, Comp::M),
                AsmView::AtReg(Reg::R14),
                AsmView::Assign(Dest::M, Comp::D),
            ]);
        }
        let mut v = head;
        append_ops(&mut v, pop_to_d_ops());
        let middle = vec![
            Asm::AtReg(Reg::Arg),
            Asm::Assign(Dest::A, Comp::M),
            Asm::Assign(Dest::M, Comp::D),
            Asm::AtReg(Reg::Arg),
            Asm::Assign(Dest::D, Comp::MPlusOne),
            Asm::AtReg(Reg::Sp),
            Asm::Assign(Dest::M, Comp::D),
        ];
        proof {
            assert(views(middle@) =~= seq![
                AsmView::AtReg(Reg::Arg),
                AsmView::Assign(Dest::A, Comp::M),
                AsmView::Assign(Dest::M, Comp::D),
                AsmView::AtReg(Reg::Arg),
                AsmView::Assign(Dest::D, Comp::MPlusOne),
                AsmView::AtReg(Reg::Sp),
                AsmView::Assign(Dest::M, Comp::D),
            ]);
        }
        append_ops(&mut v, middle);
        append_ops(&mut v, restore_reg_ops(Reg::That));
        append_ops(&mut v, restore_reg_ops(Reg::This));
        append_ops(&mut v, restore_reg_ops(Reg::Arg));
        append_ops(&mut v, restore_reg_ops(Reg::Lcl));
        let tail = vec![
            Asm::AtReg(Reg::R14),
            Asm::Assign(Dest::A, Comp::M),
            Asm::Branch(Comp::Zero, Jump::Jmp),
        ];
        proof {
            assert(views(tail@) =~= seq![
                AsmView::AtReg(Reg::R14),
                AsmView::Assign(Dest::A, Comp::M),
                AsmView::Branch(Comp::Zero, Jump::Jmp),
            ]);
        }
        append_ops(&mut v, tail);
        render(&v)
    }

    /// The declaration of a label.
    pub fn label(&self) -> (r: String)
        requires
            self.label_text is Some,
        ensures
            r@ == block_text(label_block(self@.label_text->0)),
    {
        let v = vec![Asm::Declare(Label::Named(self.name()))];
        proof {
            assert(views(v@) =~= label_block(self@.label_text->0));
        }
        render(&v)
    }

    /// A jump to a label.
    pub fn goto(&self) -> (r: String)
        requires
            self.label_text is Some,
        ensures
            r@ == block_text(goto_block(self@.label_text->0)),
    {
        let v = vec![Asm::AtLabel(Label::Named(self.name())), Asm::Branch(Comp::Zero, Jump::Jmp)];
        proof {
            assert(views(v@) =~= goto_block(self@.label_text->0));
        }
        render(&v)
    }

    /// A jump to a label that is taken where the top of the stack, which
    /// leaves the stack, is not zero.
    pub fn if_goto(&self) -> (r: String)
        requires
            self.label_text is Some,
        ensures
            r@ == block_text(if_goto_block(self@.label_text->0)),
    {
        let tail = vec![Asm::AtLabel(Label::Named(self.name())), Asm::Branch(Comp::D, Jump::Jne)];
        proof {
            assert(views(tail@) =~= seq![
                AsmView::AtLabel(LabelView::Named(self@.label_text->0)),
                AsmView::Branch(Comp::D, Jump::Jne),
            ]);
        }
        render(&pop_to_d_then(tail))
    }

    /// The block of an arithmetic or logical instruction (no line for an
    /// instruction of another family).
    pub fn arithmitic(&self) -> (r: String)
        ensures
            r@ == block_text(arithmetic_block(self.mnemonic, self.line_num)),
    {
        match self.mnemonic {
            Mnemonic::Add => self.add(),
            Mnemonic::Sub => self.sub(),
            Mnemonic::Eq => self.eq(),
            Mnemonic::Lt => self.lt(),
            Mnemonic::Gt => self.gt(),
            Mnemonic::Neg => self.neg(),
            Mnemonic::And => self.and(),
            Mnemonic::Or => self.or(),
            Mnemonic::Not => self.not(),
            _ => String::new(),
        }
    }

    /// Adds the two top cells.
    pub fn add(&self) -> (r: String)
        ensures
            r@ == block_text(binary_block(Comp::DPlusM)),
    {
        binary_text(Comp::DPlusM)
    }

    /// Takes the top cell from the cell below it.
    pub fn sub(&self) -> (r: String)
        ensures
            r@ == block_text(binary_block(Comp::MMinusD)),
    {
        binary_text(Comp::MMinusD)
    }

    /// Compares the two top cells: -1 where they are equal, 0 where not.
    pub fn eq(&self) -> (r: String)
        ensures
            r@ == block_text(compare_block(Jump::Jeq, self.line_num)),
    {
        compare_text(Jump::Jeq, self.line_num)
    }

    /// Compares the two top cells: -1 where the lower is less than the
    /// upper, 0 where not.
    pub fn lt(&self) -> (r: String)
        ensures
            r@ == block_text(compare_block(Jump::Jlt, self.line_num)),
    {
        compare_text(Jump::Jlt, self.line_num)
    }

    /// Compares the two top cells: -1 where the lower is greater than the
    /// upper, 0 where not.
    pub fn gt(&self) -> (r: String)
        ensures
            r@ == block_text(compare_block(Jump::Jgt, self.line_num)),
    {
        compare_text(Jump::Jgt, self.line_num)
    }

    /// Negates the top cell.
    pub fn neg(&self) -> (r: String)
        ensures
            r@ == block_text(unary_block(Comp::NegM)),
    {
        unary_text(Comp::NegM)
    }

    /// The bitwise and of the two top cells.
    pub fn and(&self) -> (r: String)
        ensures
            r@ == block_text(binary_block(Comp::DAndM)),
    {
        binary_text(Comp::DAndM)
    }

    /// The bitwise or of the two top cells.
    pub fn or(&self) -> (r: String)
        ensures
            r@ == block_text(binary_block(Comp::DOrM)),
    {
        binary_text(Comp::DOrM)
    }

    /// The bitwise complement of the top cell.
    pub fn not(&self) -> (r: String)
        ensures
            r@ == block_text(unary_block(Comp::NotM)),
    {
        unary_text(Comp::NotM)
    }

    /// The block of a `push`: `MissingSegment` where the instruction holds
    /// no segment, `InvalidPointerIndex` where it addresses `pointer` with
    /// an offset above 1.
    pub fn push(&self) -> (r: Result<String, TranslateError>)
        requires
            self.offset is Some,
        ensures
            generated(r) == rendered(push_block(self@)),
    {
        match self.segment {
            None => Err(TranslateError::MissingSegment),
            Some(Segment::Constant) => Ok(self.push_constant()),
            Some(Segment::Temp) => Ok(self.push_temp()),
            Some(Segment::Pointer) => self.push_pointer(),
            Some(Segment::Static) => Ok(self.push_static()),
            Some(_) => Ok(self.push_offset()),
        }
    }

    /// The block of a `pop`: `MissingSegment` where the instruction holds
    /// no segment, `IllegalPopTarget` where it names `constant`,
    /// `InvalidPointerIndex` where it addresses `pointer` with an offset
    /// above 1.
    pub fn pop(&self) -> (r: Result<String, TranslateError>)
        requires
            self.offset is Some,
        ensures
            generated(r) == rendered(pop_block(self@)),
            self.segment == Some(Segment::Constant) ==> r == Err::<String, TranslateError>(
                TranslateError::IllegalPopTarget,
            ),
    {
        match self.segment {
            None => Err(TranslateError::MissingSegment),
            Some(Segment::Constant) => Err(TranslateError::IllegalPopTarget),
            Some(Segment::Temp) => Ok(self.pop_temp()),
            Some(Segment::Pointer) => self.pop_pointer(),
            Some(Segment::Static) => Ok(self.pop_static()),
            Some(_) => Ok(self.pop_offset()),
        }
    }

    /// Puts the instruction's number on the stack.
    pub fn push_constant(&self) -> (r: String)
        requires
            self.offset is Some,
        ensures
            r@ == block_text(push_constant_block(self@.offset->0)),
    {
        let n = self.operand();
        let head = vec![Asm::AtNum(n as u64), Asm::Assign(Dest::D, Comp::A)];
        proof {
            assert(views(head@) =~= seq![
                AsmView::AtNum(n as u64),
                AsmView::Assign(Dest::D, Comp::A),
            ]);
        }
        render(&then_push_d(head))
    }

    /// Puts a static variable of the instruction's unit on the stack.
    pub fn push_static(&self) -> (r: String)
        requires
            self.offset is Some,
        ensures
            r@ == block_text(push_static_block(self@.file_name, self@.offset->0)),
    {
        let n = self.operand();
        let head = vec![Asm::AtStatic(self.file_name.clone(), n), Asm::Assign(Dest::D, Comp::M)];
        proof {
            assert(views(head@) =~= seq![
                AsmView::AtStatic(self@.file_name, n),
                AsmView::Assign(Dest::D, Comp::M),
            ]);
        }
        render(&then_push_d(head))
    }

    /// Puts `THIS` (offset 0) or `THAT` (offset 1) on the stack; no other
    /// offset is accepted.
    pub fn push_pointer(&self) -> (r: Result<String, TranslateError>)
        requires
            self.offset is Some,
        ensures
            self@.offset->0 <= 1 ==> generated(r) == Ok::<Seq<char>, TranslateError>(
                block_text(push_reg(pointer_reg(self@.offset->0))),
            ),
            self@.offset->0 > 1 ==> r == Err::<String, TranslateError>(
                TranslateError::InvalidPointerIndex,
            ),
    {
        let n = self.operand();
        if n == 0 {
            Ok(render(&push_reg_ops(Reg::This)))
        } else if n == 1 {
            Ok(render(&push_reg_ops(Reg::That)))
        } else {
            Err(TranslateError::InvalidPointerIndex)
        }
    }

    /// Takes the top of the stack into a static variable of the
    /// instruction's unit.
    pub fn pop_static(&self) -> (r: String)
        requires
            self.offset is Some,
        ensures
            r@ == block_text(pop_static_block(self@.file_name, self@.offset->0)),
    {
        let n = self.operand();
        let tail = vec![Asm::AtStatic(self.file_name.clone(), n), Asm::Assign(Dest::M, Comp::D)];
        proof {
            assert(views(tail@) =~= seq![
                AsmView::AtStatic(self@.file_name, n),
                AsmView::Assign(Dest::M, Comp::D),
            ]);
        }
        render(&pop_to_d_then(tail))
    }

    /// Takes the top of the stack into `THIS` (offset 0) or `THAT` (offset
    /// 1); no other offset is accepted.
    pub fn pop_pointer(&self) -> (r: Result<String, TranslateError>)
        requires
            self.offset is Some,
        ensures
            self@.offset->0 <= 1 ==> generated(r) == Ok::<Seq<char>, TranslateError>(
                block_text(pop_reg(pointer_reg(self@.offset->0))),
            ),
            self@.offset->0 > 1 ==> r == Err::<String, TranslateError>(
                TranslateError::InvalidPointerIndex,
            ),
    {
        let n = self.operand();
        if n == 0 {
            Ok(render(&pop_reg_ops(Reg::This)))
        } else if n == 1 {
            Ok(render(&pop_reg_ops(Reg::That)))
        } else {
            Err(TranslateError::InvalidPointerIndex)
        }
    }

    /// Takes the top of the stack into a cell of the segment that `LCL`,
    /// `ARG`, `THIS` or `THAT` points at.
    pub fn pop_offset(&self) -> (r: String)
        requires
            self.offset is Some,
            self.segment is Some,
        ensures
            r@ == block_text(pop_offset_block(base_of(self.segment->0), self@.offset->0)),
    {
        let n = self.operand();
        let base = match self.segment {
            Some(s) => base_register(s),
            None => Reg::That,
        };
        let mut v = vec![
            Asm::AtNum(n as u64),
            Asm::Assign(Dest::D, Comp::A),
            Asm::AtReg(base),
            Asm::Assign(Dest::D, Comp::DPlusM),
            Asm::AtReg(Reg::R13),
            Asm::Assign(Dest::M, Comp::D),
        ];
        proof {
            assert(views(v@) =~= seq![
                AsmView::AtNum(n as u64),
                AsmView::Assign(Dest::D, Comp::A),
                AsmView::AtReg(base),
                AsmView::Assign(Dest::D, Comp::DPlusM),
                AsmView::AtReg(Reg::R13),
                AsmView::Assign(Dest::M, Comp::D),
            ]);
        }
        let tail = vec![
            Asm::AtReg(Reg::R13),
            Asm::Assign(Dest::A, Comp::M),
            Asm::Assign(Dest::M, Comp::D),
        ];
        proof {
            assert(views(tail@) =~= seq![
                AsmView::AtReg(Reg::R13),
                AsmView::Assign(Dest::A, Comp::M),
                AsmView::Assign(Dest::M, Comp::D),
            ]);
        }
        append_ops(&mut v, pop_to_d_ops());
        append_ops(&mut v, tail);
        render(&v)
    }

    /// Takes the top of the stack into a temporary.
    pub fn pop_temp(&self) -> (r: String)
        requires
            self.offset is Some,
        ensures
            r@ == block_text(pop_temp_block(self@.offset->0)),
    {
        let n = self.operand();
        let tail = vec![Asm::AtTemp(n as u64 + 5), Asm::Assign(Dest::M, Comp::D)];
        proof {
            assert(views(tail@) =~= seq![
                AsmView::AtTemp((n + 5) as u64),
                AsmView::Assign(Dest::M, Comp::D),
            ]);
        }
        render(&pop_to_d_then(tail))
    }

    /// Puts a cell of the segment that `LCL`, `ARG`, `THIS` or `THAT` points
    /// at on the stack.
    pub fn push_offset(&self) -> (r: String)
        requires
            self.offset is Some,
            self.segment is Some,
        ensures
            r@ == block_text(push_offset_block(base_of(self.segment->0), self@.offset->0)),
    {
        let n = self.operand();
        let base = match self.segment {
            Some(s) => base_register(s),
            None => Reg::That,
        };
        let head = vec![
            Asm::AtNum(n as u64),
            Asm::Assign(Dest::D, Comp::A),
            Asm::AtReg(base),
            Asm::Assign(Dest::A, Comp::M),
            Asm::Assign(Dest::A, Comp::DPlusA),
            Asm::Assign(Dest::D, Comp::M),
        ];
        proof {
            assert(views(head@) =~= seq![
                AsmView::AtNum(n as u64),
                AsmView::Assign(Dest::D, Comp::A),
                AsmView::AtReg(base),
                AsmView::Assign(Dest::A, Comp::M),
                AsmView::Assign(Dest::A, Comp::DPlusA),
                AsmView::Assign(Dest::D, Comp::M),
            ]);
        }
        render(&then_push_d(head))
    }

    /// Puts a temporary on the stack.
    pub fn push_temp(&self) -> (r: String)
        requires
            self.offset is Some,
        ensures
            r@ == block_text(push_temp_block(self@.offset->0)),
    {
        let n = self.operand();
        let head = vec![Asm::AtTemp(n as u64 + 5), Asm::Assign(Dest::D, Comp::M)];
        proof {
            assert(views(head@) =~= seq![
                AsmView::AtTemp((n + 5) as u64),
                AsmView::Assign(Dest::D, Comp::M),
            ]);
        }
        render(&then_push_d(head))
    }
}

} // verus!
