//! A model of the target machine, and what the generated blocks do on it.
//!
//! The model computes on mathematical integers: it describes the machine
//! as long as no value leaves the range of a word. A block runs from its
//! first line; a label declaration takes a line of its own, on which
//! nothing happens, and a label stands for the line that declares it. The
//! run ends where control leaves the block.

use vstd::prelude::*;
use crate::assembly::{AsmView, Comp, Dest, Jump, LabelView, Reg};
use crate::codegen::{
    arithmetic_block, base_of, binary_block, call_block, compare_block, function_block, goto_block,
    if_goto_block, label_block, pointer_reg, push_zero, zero_cells, pop_block, pop_offset_block,
    pop_reg, pop_static_block, pop_temp_block, push_block, push_constant_block,
    push_offset_block, push_reg, push_static_block, push_temp_block, return_block, unary_block,
};
use crate::instruction::{CommandType, Instruction, Mnemonic, Segment};

verus! {

/// The registers `A` and `D`, and the memory.
pub struct Machine {
    pub a: int,
    pub d: int,
    pub ram: Map<int, int>,
}

/// Where the assembler puts what the blocks name: the static variables,
/// the labels, and the numbered registers beyond `R15`.
pub struct Layout {
    pub statics: spec_fn(Seq<char>, u32) -> int,
    pub labels: spec_fn(LabelView) -> int,
    pub numbered: spec_fn(u64) -> int,
}

/// The address of a named location.
pub open spec fn reg_address(r: Reg) -> int {
    match r {
        Reg::Sp => 0,
        Reg::Lcl => 1,
        Reg::Arg => 2,
        Reg::This => 3,
        Reg::That => 4,
        Reg::R13 => 13,
        Reg::R14 => 14,
    }
}

/// The address of the numbered register `Rn`.
pub open spec fn numbered_address(env: Layout, n: u64) -> int {
    if n <= 15 {
        n as int
    } else {
        (env.numbered)(n)
    }
}

/// What the machine computes. `!M` is written as `-M - 1`, which it is in
/// two's complement; `&` and `|` work on the 16 bits of a word.
pub open spec fn alu(c: Comp, a: int, d: int, m: int) -> int {
    match c {
        Comp::Zero => 0,
        Comp::MinusOne => -1,
        Comp::D => d,
        Comp::A => a,
        Comp::M => m,
        Comp::NegM => -m,
        Comp::NotM => -m - 1,
        Comp::MPlusOne => m + 1,
        Comp::MMinusOne => m - 1,
        Comp::AMinusOne => a - 1,
        Comp::DPlusM => d + m,
        Comp::DPlusA => d + a,
        Comp::MMinusD => m - d,
        Comp::DMinusA => d - a,
        Comp::DAndM => ((d as i16) & (m as i16)) as int,
        Comp::DOrM => ((d as i16) | (m as i16)) as int,
    }
}

/// Whether a jump is taken on the value `v`.
pub open spec fn taken(j: Jump, v: int) -> bool {
    match j {
        Jump::Jeq => v == 0,
        Jump::Jlt => v < 0,
        Jump::Jgt => v > 0,
        Jump::Jne => v != 0,
        Jump::Jmp => true,
    }
}

/// The machine after a line that is no jump.
pub open spec fn step(op: AsmView, env: Layout, m: Machine) -> Machine {
    match op {
        AsmView::AtNum(n) => Machine { a: n as int, ..m },
        AsmView::AtReg(r) => Machine { a: reg_address(r), ..m },
        AsmView::AtTemp(n) => Machine { a: numbered_address(env, n), ..m },
        AsmView::AtStatic(u, n) => Machine { a: (env.statics)(u, n), ..m },
        AsmView::AtLabel(l) => Machine { a: (env.labels)(l), ..m },
        AsmView::Assign(dest, c) => {
            let v = alu(c, m.a, m.d, m.ram[m.a]);
            Machine {
                a: if dest == Dest::A || dest == Dest::AM {
                    v
                } else {
                    m.a
                },
                d: if dest == Dest::D {
                    v
                } else {
                    m.d
                },
                ram: if dest == Dest::M || dest == Dest::AM {
                    m.ram.insert(m.a, v)
                } else {
                    m.ram
                },
            }
        },
        _ => m,
    }
}

/// The line that control has reached, and the machine, after at most
/// `fuel` lines of `ops` from line `pc` on. Nothing happens once control
/// is outside the block.
pub open spec fn exec(ops: Seq<AsmView>, env: Layout, pc: int, m: Machine, fuel: nat) -> (
    int,
    Machine,
)
    decreases fuel,
{
    if fuel == 0 || pc < 0 || pc >= ops.len() {
        (pc, m)
    } else {
        match ops[pc] {
            AsmView::Branch(c, j) => if taken(j, alu(c, m.a, m.d, m.ram[m.a])) {
                exec(ops, env, m.a, m, (fuel - 1) as nat)
            } else {
                exec(ops, env, pc + 1, m, (fuel - 1) as nat)
            },
            op => exec(ops, env, pc + 1, step(op, env, m), (fuel - 1) as nat),
        }
    }
}

/// The machine when control has left a block that only jumps forwards.
pub open spec fn run(ops: Seq<AsmView>, env: Layout, m: Machine) -> Machine {
    exec(ops, env, 0, m, ops.len()).1
}

/// Running `first + then` lines is running `first` lines and then `then`
/// lines more.
pub proof fn lemma_exec_split(
    ops: Seq<AsmView>,
    env: Layout,
    pc: int,
    m: Machine,
    first: nat,
    then: nat,
)
    ensures
        exec(ops, env, pc, m, first + then) == exec(
            ops,
            env,
            exec(ops, env, pc, m, first).0,
            exec(ops, env, pc, m, first).1,
            then,
        ),
    decreases first,
{
    if first == 0 || pc < 0 || pc >= ops.len() {
    } else {
        match ops[pc] {
            AsmView::Branch(c, j) => {
                if taken(j, alu(c, m.a, m.d, m.ram[m.a])) {
                    lemma_exec_split(ops, env, m.a, m, (first - 1) as nat, then);
                } else {
                    lemma_exec_split(ops, env, pc + 1, m, (first - 1) as nat, then);
                }
            },
            op => {
                lemma_exec_split(ops, env, pc + 1, step(op, env, m), (first - 1) as nat, then);
            },
        }
    }
}

/// Every label that the block declares stands for the line that declares it.
pub open spec fn resolved(env: Layout, ops: Seq<AsmView>) -> bool {
    forall|k: int, l: LabelView|
        0 <= k < ops.len() && ops[k] == AsmView::Declare(l) ==> (env.labels)(l) == k
}

/// The cell that `SP` points at: the first free cell above the stack.
pub open spec fn sp(m: Machine) -> int {
    m.ram[0]
}

/// A binary operation takes one cell off the stack, and leaves what it
/// computed from the two top cells in the cell that is now the top.
pub proof fn lemma_binary_takes_one_cell(c: Comp, env: Layout, m: Machine)
    requires
        sp(m) != 1,
        sp(m) != 2,
    ensures
        sp(run(binary_block(c), env, m)) == sp(m) - 1,
        run(binary_block(c), env, m).ram[sp(m) - 2] == alu(
            c,
            sp(m) - 2,
            m.ram[sp(m) - 1],
            m.ram[sp(m) - 2],
        ),
        forall|at: int|
            at != 0 && at != sp(m) - 2 ==> run(binary_block(c), env, m).ram[at] == m.ram[at],
{
    let ops = binary_block(c);
    assert(ops =~= seq![
        AsmView::AtReg(Reg::Sp),
        AsmView::Assign(Dest::AM, Comp::MMinusOne),
        AsmView::Assign(Dest::D, Comp::M),
        AsmView::Assign(Dest::A, Comp::AMinusOne),
        AsmView::Assign(Dest::M, c),
    ]);
    reveal_with_fuel(exec, 6);
}

/// A unary operation leaves the stack as deep as it was, and puts what it
/// computed from the top cell in its place.
pub proof fn lemma_unary_keeps_depth(c: Comp, env: Layout, m: Machine)
    requires
        sp(m) != 1,
    ensures
        sp(run(unary_block(c), env, m)) == sp(m),
        run(unary_block(c), env, m).ram[sp(m) - 1] == alu(c, sp(m) - 1, m.d, m.ram[sp(m) - 1]),
        forall|at: int| at != sp(m) - 1 ==> run(unary_block(c), env, m).ram[at] == m.ram[at],
{
    reveal_with_fuel(exec, 4);
}

/// A comparison takes one cell off the stack, and leaves -1 in the cell
/// that is now the top where the lower of the two top cells minus the
/// upper meets the condition, and 0 where it does not.
pub proof fn lemma_compare_takes_one_cell(j: Jump, n: u64, env: Layout, m: Machine)
    requires
        j != Jump::Jne,
        j != Jump::Jmp,
        sp(m) != 1,
        sp(m) != 2,
        resolved(env, compare_block(j, n)),
    ensures
        sp(run(compare_block(j, n), env, m)) == sp(m) - 1,
        run(compare_block(j, n), env, m).ram[sp(m) - 2] == (if taken(
            j,
            m.ram[sp(m) - 2] - m.ram[sp(m) - 1],
        ) {
            -1int
        } else {
            0int
        }),
        forall|at: int|
            at != 0 && at != sp(m) - 2 ==> run(compare_block(j, n), env, m).ram[at] == m.ram[at],
{
    let ops = compare_block(j, n);
    assert(ops =~= seq![
        AsmView::AtReg(Reg::Sp),
        AsmView::Assign(Dest::AM, Comp::MMinusOne),
        AsmView::Assign(Dest::D, Comp::M),
        AsmView::Assign(Dest::A, Comp::AMinusOne),
        AsmView::Assign(Dest::D, Comp::MMinusD),
        AsmView::AtLabel(LabelView::True(n)),
        AsmView::Branch(Comp::D, j),
        AsmView::AtReg(Reg::Sp),
        AsmView::Assign(Dest::A, Comp::MMinusOne),
        AsmView::Assign(Dest::M, Comp::Zero),
        AsmView::AtLabel(LabelView::End(n)),
        AsmView::Branch(Comp::D, Jump::Jmp),
        AsmView::Declare(LabelView::True(n)),
        AsmView::AtReg(Reg::Sp),
        AsmView::Assign(Dest::A, Comp::MMinusOne),
        AsmView::Assign(Dest::M, Comp::MinusOne),
        AsmView::Declare(LabelView::End(n)),
    ]);
    assert(ops[12] == AsmView::Declare(LabelView::True(n)));
    assert(ops[16] == AsmView::Declare(LabelView::End(n)));
    assert((env.labels)(LabelView::True(n)) == 12);
    assert((env.labels)(LabelView::End(n)) == 16);
    reveal_with_fuel(exec, 18);
}

/// How many operands an arithmetic or logical operation takes off the
/// stack before it puts its result there: two for a binary operation or
/// a comparison, one for `neg` and `not`.
pub open spec fn arity(op: Mnemonic) -> int {
    if op == Mnemonic::Neg || op == Mnemonic::Not {
        1
    } else {
        2
    }
}

/// An arithmetic or logical instruction leaves the stack one cell less
/// deep where it is binary, and as deep as it was where it is unary; it
/// changes no cell but `SP` and the cell that takes its result.
pub proof fn lemma_arithmetic_depth(op: Mnemonic, n: u64, env: Layout, m: Machine)
    requires
        op.command_type() == CommandType::Arithmetic,
        sp(m) != 1,
        arity(op) == 2 ==> sp(m) != 2,
        resolved(env, arithmetic_block(op, n)),
    ensures
        sp(run(arithmetic_block(op, n), env, m)) == sp(m) - arity(op) + 1,
        forall|at: int|
            at != 0 && at != sp(m) - arity(op) ==> run(arithmetic_block(op, n), env, m).ram[at]
                == m.ram[at],
{
    match op {
        Mnemonic::Add => lemma_binary_takes_one_cell(Comp::DPlusM, env, m),
        Mnemonic::Sub => lemma_binary_takes_one_cell(Comp::MMinusD, env, m),
        Mnemonic::And => lemma_binary_takes_one_cell(Comp::DAndM, env, m),
        Mnemonic::Or => lemma_binary_takes_one_cell(Comp::DOrM, env, m),
        Mnemonic::Neg => lemma_unary_keeps_depth(Comp::NegM, env, m),
        Mnemonic::Not => lemma_unary_keeps_depth(Comp::NotM, env, m),
        Mnemonic::Eq => lemma_compare_takes_one_cell(Jump::Jeq, n, env, m),
        Mnemonic::Lt => lemma_compare_takes_one_cell(Jump::Jlt, n, env, m),
        _ => lemma_compare_takes_one_cell(Jump::Jgt, n, env, m),
    }
}

/// The address that a `push` reads and a `pop` writes, for every segment
/// but `constant`.
pub open spec fn segment_address(i: Instruction, env: Layout, m: Machine) -> int
    recommends
        i.segment is Some,
        i.offset is Some,
{
    let n = i.offset->0;
    match i.segment->0 {
        Segment::Temp => numbered_address(env, (n + 5) as u64),
        Segment::Static => (env.statics)(i.file_name, n),
        Segment::Pointer => reg_address(pointer_reg(n)),
        s => m.ram[reg_address(base_of(s))] + n,
    }
}

/// The value that a `push` puts on the stack.
pub open spec fn pushed_value(i: Instruction, env: Layout, m: Machine) -> int
    recommends
        i.segment is Some,
        i.offset is Some,
{
    if i.segment->0 == Segment::Constant {
        i.offset->0 as int
    } else {
        m.ram[segment_address(i, env, m)]
    }
}

/// What a block that puts `v` on the stack leaves behind.
pub open spec fn has_pushed(after: Machine, m: Machine, v: int) -> bool {
    &&& sp(after) == sp(m) + 1
    &&& after.ram[sp(m)] == v
    &&& forall|at: int| at != 0 && at != sp(m) ==> after.ram[at] == m.ram[at]
}

/// What a block that takes the top of the stack into the cell `to` leaves
/// behind. The cell of `R13` is free for the block to use.
pub open spec fn has_popped(after: Machine, m: Machine, to: int) -> bool {
    &&& sp(after) == sp(m) - 1
    &&& after.ram[to] == m.ram[sp(m) - 1]
    &&& forall|at: int| at != 0 && at != 13 && at != to ==> after.ram[at] == m.ram[at]
}

proof fn lemma_push_constant(n: u32, env: Layout, m: Machine)
    requires
        sp(m) != 0,
    ensures
        has_pushed(run(push_constant_block(n), env, m), m, n as int),
{
    assert(push_constant_block(n) =~= seq![
        AsmView::AtNum(n as u64),
        AsmView::Assign(Dest::D, Comp::A),
        AsmView::AtReg(Reg::Sp),
        AsmView::Assign(Dest::A, Comp::M),
        AsmView::Assign(Dest::M, Comp::D),
        AsmView::AtReg(Reg::Sp),
        AsmView::Assign(Dest::M, Comp::MPlusOne),
    ]);
    reveal_with_fuel(exec, 8);
}

proof fn lemma_push_direct(head: AsmView, env: Layout, m: Machine)
    requires
        sp(m) != 0,
        head is AtReg || head is AtTemp || head is AtStatic,
    ensures
        has_pushed(
            run(
                seq![
                    head,
                    AsmView::Assign(Dest::D, Comp::M),
                    AsmView::AtReg(Reg::Sp),
                    AsmView::Assign(Dest::A, Comp::M),
                    AsmView::Assign(Dest::M, Comp::D),
                    AsmView::AtReg(Reg::Sp),
                    AsmView::Assign(Dest::M, Comp::MPlusOne),
                ],
                env,
                m,
            ),
            m,
            m.ram[step(head, env, m).a],
        ),
{
    reveal_with_fuel(exec, 8);
}

proof fn lemma_push_offset(base: Reg, n: u32, env: Layout, m: Machine)
    requires
        sp(m) != 0,
    ensures
        has_pushed(
            run(push_offset_block(base, n), env, m),
            m,
            m.ram[m.ram[reg_address(base)] + n],
        ),
{
    assert(push_offset_block(base, n) =~= seq![
        AsmView::AtNum(n as u64),
        AsmView::Assign(Dest::D, Comp::A),
        AsmView::AtReg(base),
        AsmView::Assign(Dest::A, Comp::M),
        AsmView::Assign(Dest::A, Comp::DPlusA),
        AsmView::Assign(Dest::D, Comp::M),
        AsmView::AtReg(Reg::Sp),
        AsmView::Assign(Dest::A, Comp::M),
        AsmView::Assign(Dest::M, Comp::D),
        AsmView::AtReg(Reg::Sp),
        AsmView::Assign(Dest::M, Comp::MPlusOne),
    ]);
    reveal_with_fuel(exec, 12);
}

/// A `push` makes the stack one cell deeper: the new top cell holds the
/// pushed value, and no other cell but `SP` changes.
pub proof fn lemma_push_adds_one_cell(i: Instruction, env: Layout, m: Machine)
    requires
        i.offset is Some,
        push_block(i) is Ok,
        sp(m) != 0,
    ensures
        has_pushed(run(push_block(i)->Ok_0, env, m), m, pushed_value(i, env, m)),
{
    let n = i.offset->0;
    match i.segment->0 {
        Segment::Constant => {
            lemma_push_constant(n, env, m);
        },
        Segment::Temp => {
            let head = AsmView::AtTemp((n + 5) as u64);
            lemma_push_direct(head, env, m);
            assert(push_temp_block(n) =~= seq![
                head,
                AsmView::Assign(Dest::D, Comp::M),
                AsmView::AtReg(Reg::Sp),
                AsmView::Assign(Dest::A, Comp::M),
                AsmView::Assign(Dest::M, Comp::D),
                AsmView::AtReg(Reg::Sp),
                AsmView::Assign(Dest::M, Comp::MPlusOne),
            ]);
        },
        Segment::Static => {
            let head = AsmView::AtStatic(i.file_name, n);
            lemma_push_direct(head, env, m);
            assert(push_static_block(i.file_name, n) =~= seq![
                head,
                AsmView::Assign(Dest::D, Comp::M),
                AsmView::AtReg(Reg::Sp),
                AsmView::Assign(Dest::A, Comp::M),
                AsmView::Assign(Dest::M, Comp::D),
                AsmView::AtReg(Reg::Sp),
                AsmView::Assign(Dest::M, Comp::MPlusOne),
            ]);
        },
        Segment::Pointer => {
            let head = AsmView::AtReg(pointer_reg(n));
            lemma_push_direct(head, env, m);
            assert(push_reg(pointer_reg(n)) =~= seq![
                head,
                AsmView::Assign(Dest::D, Comp::M),
                AsmView::AtReg(Reg::Sp),
                AsmView::Assign(Dest::A, Comp::M),
                AsmView::Assign(Dest::M, Comp::D),
                AsmView::AtReg(Reg::Sp),
                AsmView::Assign(Dest::M, Comp::MPlusOne),
            ]);
        },
        s => {
            lemma_push_offset(base_of(s), n, env, m);
        },
    }
}

proof fn lemma_pop_direct(target: AsmView, env: Layout, m: Machine)
    requires
        sp(m) != 1,
        target is AtReg || target is AtTemp || target is AtStatic,
        step(target, env, m).a != 0,
    ensures
        has_popped(
            run(
                seq![
                    AsmView::AtReg(Reg::Sp),
                    AsmView::Assign(Dest::AM, Comp::MMinusOne),
                    AsmView::Assign(Dest::D, Comp::M),
                    target,
                    AsmView::Assign(Dest::M, Comp::D),
                ],
                env,
                m,
            ),
            m,
            step(target, env, m).a,
        ),
{
    reveal_with_fuel(exec, 6);
}

proof fn lemma_pop_offset(base: Reg, n: u32, env: Layout, m: Machine)
    requires
        sp(m) != 1,
        sp(m) != 14,
        m.ram[reg_address(base)] + n != 0,
    ensures
        has_popped(run(pop_offset_block(base, n), env, m), m, m.ram[reg_address(base)] + n),
{
    assert(pop_offset_block(base, n) =~= seq![
        AsmView::AtNum(n as u64),
        AsmView::Assign(Dest::D, Comp::A),
        AsmView::AtReg(base),
        AsmView::Assign(Dest::D, Comp::DPlusM),
        AsmView::AtReg(Reg::R13),
        AsmView::Assign(Dest::M, Comp::D),
        AsmView::AtReg(Reg::Sp),
        AsmView::Assign(Dest::AM, Comp::MMinusOne),
        AsmView::Assign(Dest::D, Comp::M),
        AsmView::AtReg(Reg::R13),
        AsmView::Assign(Dest::A, Comp::M),
        AsmView::Assign(Dest::M, Comp::D),
    ]);
    reveal_with_fuel(exec, 13);
}

/// A `pop` takes one cell off the stack: the cell that it addresses takes
/// what the top cell held, and no other cell but `SP` and `R13` changes.
/// The top cell must not be `SP` or `R13` itself, and the addressed cell
/// not `SP`.
pub proof fn lemma_pop_takes_one_cell(i: Instruction, env: Layout, m: Machine)
    requires
        i.offset is Some,
        pop_block(i) is Ok,
        sp(m) != 1,
        sp(m) != 14,
        segment_address(i, env, m) != 0,
    ensures
        has_popped(run(pop_block(i)->Ok_0, env, m), m, segment_address(i, env, m)),
{
    let n = i.offset->0;
    match i.segment->0 {
        Segment::Constant => {},
        Segment::Temp => {
            let target = AsmView::AtTemp((n + 5) as u64);
            lemma_pop_direct(target, env, m);
            assert(pop_temp_block(n) =~= seq![
                AsmView::AtReg(Reg::Sp),
                AsmView::Assign(Dest::AM, Comp::MMinusOne),
                AsmView::Assign(Dest::D, Comp::M),
                target,
                AsmView::Assign(Dest::M, Comp::D),
            ]);
        },
        Segment::Static => {
            let target = AsmView::AtStatic(i.file_name, n);
            lemma_pop_direct(target, env, m);
            assert(pop_static_block(i.file_name, n) =~= seq![
                AsmView::AtReg(Reg::Sp),
                AsmView::Assign(Dest::AM, Comp::MMinusOne),
                AsmView::Assign(Dest::D, Comp::M),
                target,
                AsmView::Assign(Dest::M, Comp::D),
            ]);
        },
        Segment::Pointer => {
            let target = AsmView::AtReg(pointer_reg(n));
            lemma_pop_direct(target, env, m);
            assert(pop_reg(pointer_reg(n)) =~= seq![
                AsmView::AtReg(Reg::Sp),
                AsmView::Assign(Dest::AM, Comp::MMinusOne),
                AsmView::Assign(Dest::D, Comp::M),
                target,
                AsmView::Assign(Dest::M, Comp::D),
            ]);
        },
        s => {
            lemma_pop_offset(base_of(s), n, env, m);
        },
    }
}

/// A `push` and then a `pop` of the same cell, on a stack that lies above
/// the registers, change nothing but two cells that are free for the
/// generated code: the first cell above the stack, and `R13`. The stack
/// pointer and the addressed cell hold what they held before.
pub proof fn lemma_push_then_pop_is_identity(
    push: Instruction,
    pop: Instruction,
    env: Layout,
    m: Machine,
)
    requires
        push.offset is Some,
        pop.offset == push.offset,
        pop.segment == push.segment,
        pop.file_name == push.file_name,
        push_block(push) is Ok,
        pop_block(pop) is Ok,
        sp(m) > 15,
        segment_address(push, env, m) != 0,
    ensures
        forall|at: int|
            at != sp(m) && at != 13 ==> run(
                pop_block(pop)->Ok_0,
                env,
                run(push_block(push)->Ok_0, env, m),
            ).ram[at] == m.ram[at],
{
    let pushed = run(push_block(push)->Ok_0, env, m);
    lemma_push_adds_one_cell(push, env, m);
    assert(segment_address(pop, env, pushed) == segment_address(push, env, m));
    lemma_pop_takes_one_cell(pop, env, pushed);
}

/// Whether control that goes to `target` leaves a block of `len` lines.
pub open spec fn leaves(target: int, len: nat) -> bool {
    target < 0 || target >= len
}

/// A label declaration changes nothing.
pub proof fn lemma_label_changes_nothing(l: Seq<char>, env: Layout, m: Machine)
    ensures
        run(label_block(l), env, m) == m,
{
    reveal_with_fuel(exec, 2);
}

/// A `goto` sends control to its label and leaves the memory alone.
pub proof fn lemma_goto_jumps(l: Seq<char>, env: Layout, m: Machine)
    requires
        leaves((env.labels)(LabelView::Named(l)), goto_block(l).len()),
    ensures
        exec(goto_block(l), env, 0, m, 2).0 == (env.labels)(LabelView::Named(l)),
        run(goto_block(l), env, m).ram == m.ram,
{
    reveal_with_fuel(exec, 3);
}

/// An `if-goto` takes one cell off the stack, and sends control to its
/// label where that cell held anything but zero, and to the next block
/// where it held zero.
pub proof fn lemma_if_goto_takes_one_cell(l: Seq<char>, env: Layout, m: Machine)
    requires
        sp(m) != 1,
        leaves((env.labels)(LabelView::Named(l)), if_goto_block(l).len()),
    ensures
        sp(run(if_goto_block(l), env, m)) == sp(m) - 1,
        forall|at: int| at != 0 ==> run(if_goto_block(l), env, m).ram[at] == m.ram[at],
        exec(if_goto_block(l), env, 0, m, 5).0 == (if m.ram[sp(m) - 1] != 0 {
            (env.labels)(LabelView::Named(l))
        } else {
            5
        }),
{
    assert(if_goto_block(l) =~= seq![
        AsmView::AtReg(Reg::Sp),
        AsmView::Assign(Dest::AM, Comp::MMinusOne),
        AsmView::Assign(Dest::D, Comp::M),
        AsmView::AtLabel(LabelView::Named(l)),
        AsmView::Branch(Comp::D, Jump::Jne),
    ]);
    reveal_with_fuel(exec, 6);
}

/// Lines without a jump run one after the other, whatever follows them.
pub proof fn lemma_exec_prefix(
    a: Seq<AsmView>,
    b: Seq<AsmView>,
    env: Layout,
    pc: int,
    m: Machine,
    fuel: nat,
)
    requires
        0 <= pc,
        pc + fuel <= a.len(),
        forall|k: int| 0 <= k < a.len() ==> !(#[trigger] a[k] is Branch),
    ensures
        exec(a + b, env, pc, m, fuel) == exec(a, env, pc, m, fuel),
        exec(a, env, pc, m, fuel).0 == pc + fuel,
    decreases fuel,
{
    if fuel > 0 {
        assert((a + b)[pc] == a[pc]);
        assert(!(a[pc] is Branch));
        lemma_exec_prefix(a, b, env, pc + 1, step(a[pc], env, m), (fuel - 1) as nat);
    }
}

/// What the entry of a function with `k` locals leaves behind: `k` cells
/// more on the stack, each of them zero.
pub open spec fn has_entered(after: Machine, m: Machine, k: nat) -> bool {
    &&& sp(after) == sp(m) + k
    &&& forall|at: int| sp(m) <= at < sp(m) + k ==> after.ram[at] == 0
    &&& forall|at: int| at != 0 && !(sp(m) <= at < sp(m) + k) ==> after.ram[at] == m.ram[at]
}

/// The entry of a function puts a zero on the stack for each local
/// variable, and changes nothing else.
pub proof fn lemma_function_zeroes_locals(name: Seq<char>, k: u32, env: Layout, m: Machine)
    requires
        sp(m) > 0,
    ensures
        has_entered(run(function_block(name, k), env, m), m, k as nat),
{
    lemma_entry_zeroes(name, k as nat, env, m);
}

proof fn lemma_entry_zeroes(name: Seq<char>, k: nat, env: Layout, m: Machine)
    requires
        sp(m) > 0,
    ensures
        (seq![AsmView::Declare(LabelView::Named(name))] + zero_cells(k)).len() == 1 + 5 * k,
        forall|j: int|
            0 <= j < 1 + 5 * k ==> !(#[trigger] (seq![AsmView::Declare(LabelView::Named(name))]
                + zero_cells(k))[j] is Branch),
        has_entered(
            exec(
                seq![AsmView::Declare(LabelView::Named(name))] + zero_cells(k),
                env,
                0,
                m,
                1 + 5 * k,
            ).1,
            m,
            k,
        ),
    decreases k,
{
    let head = seq![AsmView::Declare(LabelView::Named(name))];
    let ops = head + zero_cells(k);
    if k == 0 {
        assert(ops =~= head);
        reveal_with_fuel(exec, 2);
    } else {
        let before = head + zero_cells((k - 1) as nat);
        let len = 1 + 5 * (k - 1);
        lemma_entry_zeroes(name, (k - 1) as nat, env, m);
        assert(ops =~= before + push_zero());
        assert forall|j: int| 0 <= j < 1 + 5 * k implies !(#[trigger] ops[j] is Branch) by {
            if j < len {
                assert(ops[j] == before[j]);
            } else {
                assert(ops[j] == push_zero()[j - len]);
            }
        }
        lemma_exec_prefix(before, push_zero(), env, 0, m, len as nat);
        let mid = exec(ops, env, 0, m, len as nat);
        assert(mid.0 == len);
        assert(has_entered(mid.1, m, (k - 1) as nat));
        lemma_exec_split(ops, env, 0, m, len as nat, 5);
        let end = exec(ops, env, len, mid.1, 5);
        assert(ops[len] == push_zero()[0]);
        assert(ops[len + 1] == push_zero()[1]);
        assert(ops[len + 2] == push_zero()[2]);
        assert(ops[len + 3] == push_zero()[3]);
        assert(ops[len + 4] == push_zero()[4]);
        assert(sp(end.1) == sp(mid.1) + 1 && end.1.ram == mid.1.ram.insert(sp(mid.1), 0).insert(
            0,
            sp(mid.1) + 1,
        )) by {
            reveal_with_fuel(exec, 6);
            assert(end.1.ram =~= mid.1.ram.insert(sp(mid.1), 0).insert(0, sp(mid.1) + 1));
        }
        assert(exec(ops, env, 0, m, 1 + 5 * k) == end);
    }
}

/// What a call leaves behind, on a stack that lies above the registers:
/// five cells more on the stack, which hold the return address and the
/// caller's `LCL`, `ARG`, `THIS` and `THAT`, in that order; `ARG` at the
/// first of the `args` cells below them; `LCL` at the new top of the
/// stack; and control at the callee's entry.
pub open spec fn has_called(
    after: Machine,
    m: Machine,
    env: Layout,
    name: Seq<char>,
    args: u32,
    n: u64,
) -> bool {
    let top = sp(m);
    &&& sp(after) == top + 5
    &&& after.ram[top] == (env.labels)(LabelView::Return(n))
    &&& after.ram[top + 1] == m.ram[1]
    &&& after.ram[top + 2] == m.ram[2]
    &&& after.ram[top + 3] == m.ram[3]
    &&& after.ram[top + 4] == m.ram[4]
    &&& after.ram[2] == top - args
    &&& after.ram[1] == top + 5
    &&& after.a == (env.labels)(LabelView::Named(name))
    &&& forall|at: int|
        at != 0 && at != 1 && at != 2 && !(top <= at < top + 5) ==> after.ram[at] == m.ram[at]
}

/// The machine with `v` on the stack.
pub open spec fn with_pushed(m: Machine, v: int) -> Map<int, int> {
    m.ram.insert(sp(m), v).insert(0, sp(m) + 1)
}

/// Seven lines that load a value into `D` and put it on the stack.
proof fn lemma_call_push(ops: Seq<AsmView>, env: Layout, pc: int, m: Machine, r: Reg)
    requires
        0 <= pc,
        pc + 7 <= ops.len(),
        ops[pc] == AsmView::AtReg(r),
        r != Reg::Sp,
        ops[pc + 1] == AsmView::Assign(Dest::D, Comp::M),
        ops[pc + 2] == AsmView::AtReg(Reg::Sp),
        ops[pc + 3] == AsmView::Assign(Dest::A, Comp::M),
        ops[pc + 4] == AsmView::Assign(Dest::M, Comp::D),
        ops[pc + 5] == AsmView::AtReg(Reg::Sp),
        ops[pc + 6] == AsmView::Assign(Dest::M, Comp::MPlusOne),
        sp(m) > 15,
    ensures
        exec(ops, env, pc, m, 7).0 == pc + 7,
        exec(ops, env, pc, m, 7).1.ram == with_pushed(m, m.ram[reg_address(r)]),
{
    reveal_with_fuel(exec, 8);
    assert(exec(ops, env, pc, m, 7).1.ram =~= with_pushed(m, m.ram[reg_address(r)]));
}

/// A call saves the caller's frame and sets up the callee's.
pub proof fn lemma_call_saves_frame(
    name: Seq<char>,
    args: u32,
    n: u64,
    env: Layout,
    m: Machine,
)
    requires
        sp(m) > 15,
        leaves((env.labels)(LabelView::Named(name)), call_block(name, args, n).len()),
    ensures
        has_called(run(call_block(name, args, n), env, m), m, env, name, args, n),
{
    let ops = call_block(name, args, n);
    let flat = seq![
        AsmView::AtLabel(LabelView::Return(n)),
        AsmView::Assign(Dest::D, Comp::A),
        AsmView::AtReg(Reg::Sp),
        AsmView::Assign(Dest::A, Comp::M),
        AsmView::Assign(Dest::M, Comp::D),
        AsmView::AtReg(Reg::Sp),
        AsmView::Assign(Dest::M, Comp::MPlusOne),
        AsmView::AtReg(Reg::Lcl),
        AsmView::Assign(Dest::D, Comp::M),
        AsmView::AtReg(Reg::Sp),
        AsmView::Assign(Dest::A, Comp::M),
        AsmView::Assign(Dest::M, Comp::D),
        AsmView::AtReg(Reg::Sp),
        AsmView::Assign(Dest::M, Comp::MPlusOne),
        AsmView::AtReg(Reg::Arg),
        AsmView::Assign(Dest::D, Comp::M),
        AsmView::AtReg(Reg::Sp),
        AsmView::Assign(Dest::A, Comp::M),
        AsmView::Assign(Dest::M, Comp::D),
        AsmView::AtReg(Reg::Sp),
        AsmView::Assign(Dest::M, Comp::MPlusOne),
        AsmView::AtReg(Reg::This),
        AsmView::Assign(Dest::D, Comp::M),
        AsmView::AtReg(Reg::Sp),
        AsmView::Assign(Dest::A, Comp::M),
        AsmView::Assign(Dest::M, Comp::D),
        AsmView::AtReg(Reg::Sp),
        AsmView::Assign(Dest::M, Comp::MPlusOne),
        AsmView::AtReg(Reg::That),
        AsmView::Assign(Dest::D, Comp::M),
        AsmView::AtReg(Reg::Sp),
        AsmView::Assign(Dest::A, Comp::M),
        AsmView::Assign(Dest::M, Comp::D),
        AsmView::AtReg(Reg::Sp),
        AsmView::Assign(Dest::M, Comp::MPlusOne),
        AsmView::AtNum(5),
        AsmView::Assign(Dest::D, Comp::A),
        AsmView::AtReg(Reg::Sp),
        AsmView::Assign(Dest::D, Comp::MMinusD),
        AsmView::AtNum(args as u64),
        AsmView::Assign(Dest::D, Comp::DMinusA),
        AsmView::AtReg(Reg::Arg),
        AsmView::Assign(Dest::M, Comp::D),
        AsmView::AtReg(Reg::Sp),
        AsmView::Assign(Dest::D, Comp::M),
        AsmView::AtReg(Reg::Lcl),
        AsmView::Assign(Dest::M, Comp::D),
        AsmView::AtLabel(LabelView::Named(name)),
        AsmView::Branch(Comp::Zero, Jump::Jmp),
        AsmView::Declare(LabelView::Return(n)),
    ];
    assert(ops =~= flat);
    let top = sp(m);
    let s0 = exec(ops, env, 0, m, 7);
    assert(s0.0 == 7 && s0.1.ram == with_pushed(m, (env.labels)(LabelView::Return(n)))) by {
        reveal_with_fuel(exec, 8);
        assert(s0.1.ram =~= with_pushed(m, (env.labels)(LabelView::Return(n))));
    }
    lemma_call_push(ops, env, 7, s0.1, Reg::Lcl);
    let s1 = exec(ops, env, 7, s0.1, 7);
    lemma_call_push(ops, env, 14, s1.1, Reg::Arg);
    let s2 = exec(ops, env, 14, s1.1, 7);
    lemma_call_push(ops, env, 21, s2.1, Reg::This);
    let s3 = exec(ops, env, 21, s2.1, 7);
    lemma_call_push(ops, env, 28, s3.1, Reg::That);
    let s4 = exec(ops, env, 28, s3.1, 7);
    assert(s4.0 == 35);
    assert(sp(s4.1) == top + 5);
    let s5 = exec(ops, env, 35, s4.1, 15);
    assert(s5.0 == (env.labels)(LabelView::Named(name)) && s5.1.a == s5.0 && s5.1.ram
        == s4.1.ram.insert(2, top - args).insert(1, top + 5)) by {
        reveal_with_fuel(exec, 16);
        assert(s5.1.ram =~= s4.1.ram.insert(2, top - args).insert(1, top + 5));
    }
    lemma_exec_split(ops, env, 0, m, 7, 43);
    lemma_exec_split(ops, env, 7, s0.1, 7, 36);
    lemma_exec_split(ops, env, 14, s1.1, 7, 29);
    lemma_exec_split(ops, env, 21, s2.1, 7, 22);
    lemma_exec_split(ops, env, 28, s3.1, 7, 15);
    assert(exec(ops, env, 0, m, 50) == s5);
}

/// What a return leaves behind, where the frame lies above the
/// registers: the returned value where `ARG` pointed, `SP` at the cell
/// after it; `THAT`, `THIS`, `ARG` and `LCL` as the four cells below the
/// frame reference held them; and control at the address that the fifth
/// cell below it held.
pub open spec fn has_returned(after: Machine, m: Machine) -> bool {
    let frame = m.ram[1];
    let arg = m.ram[2];
    &&& sp(after) == arg + 1
    &&& after.ram[arg] == m.ram[sp(m) - 1]
    &&& after.ram[4] == m.ram[frame - 1]
    &&& after.ram[3] == m.ram[frame - 2]
    &&& after.ram[2] == m.ram[frame - 3]
    &&& after.ram[1] == m.ram[frame - 4]
    &&& after.a == m.ram[frame - 5]
    &&& forall|at: int| at > 15 && at != arg ==> after.ram[at] == m.ram[at]
}

/// Five lines that step the frame reference down and copy the cell that
/// it points at into `r`.
proof fn lemma_return_restore(ops: Seq<AsmView>, env: Layout, pc: int, m: Machine, r: Reg)
    requires
        0 <= pc,
        pc + 5 <= ops.len(),
        ops[pc] == AsmView::AtReg(Reg::R13),
        ops[pc + 1] == AsmView::Assign(Dest::AM, Comp::MMinusOne),
        ops[pc + 2] == AsmView::Assign(Dest::D, Comp::M),
        ops[pc + 3] == AsmView::AtReg(r),
        ops[pc + 4] == AsmView::Assign(Dest::M, Comp::D),
        m.ram[13] - 1 > 15,
    ensures
        exec(ops, env, pc, m, 5).0 == pc + 5,
        exec(ops, env, pc, m, 5).1.ram == m.ram.insert(13, m.ram[13] - 1).insert(
            reg_address(r),
            m.ram[m.ram[13] - 1],
        ),
{
    reveal_with_fuel(exec, 6);
    assert(exec(ops, env, pc, m, 5).1.ram =~= m.ram.insert(13, m.ram[13] - 1).insert(
        reg_address(r),
        m.ram[m.ram[13] - 1],
    ));
}

/// A return hands the value on top of the stack to the caller and brings
/// the caller's frame back. The stack and the frame must lie above the
/// registers, and the cell that `ARG` points at below the saved frame.
pub proof fn lemma_return_restores_frame(env: Layout, m: Machine)
    requires
        sp(m) - 1 > 15,
        m.ram[2] > 15,
        m.ram[1] - 5 > 15,
        m.ram[2] <= m.ram[1] - 5,
        leaves(m.ram[m.ram[1] - 5], return_block().len()),
    ensures
        has_returned(run(return_block(), env, m), m),
{
    let ops = return_block();
    let flat = seq![
        AsmView::AtReg(Reg::Lcl),
        AsmView::Assign(Dest::D, Comp::M),
        AsmView::AtReg(Reg::R13),
        AsmView::Assign(Dest::M, Comp::D),
        AsmView::AtNum(5),
        AsmView::Assign(Dest::A, Comp::DMinusA),
        AsmView::Assign(Dest::D, Comp::M),
        AsmView::AtReg(Reg::R14),
        AsmView::Assign(Dest::M, Comp::D),
        AsmView::AtReg(Reg::Sp),
        AsmView::Assign(Dest::AM, Comp::MMinusOne),
        AsmView::Assign(Dest::D, Comp::M),
        AsmView::AtReg(Reg::Arg),
        AsmView::Assign(Dest::A, Comp::M),
        AsmView::Assign(Dest::M, Comp::D),
        AsmView::AtReg(Reg::Arg),
        AsmView::Assign(Dest::D, Comp::MPlusOne),
        AsmView::AtReg(Reg::Sp),
        AsmView::Assign(Dest::M, Comp::D),
        AsmView::AtReg(Reg::R13),
        AsmView::Assign(Dest::AM, Comp::MMinusOne),
        AsmView::Assign(Dest::D, Comp::M),
        AsmView::AtReg(Reg::That),
        AsmView::Assign(Dest::M, Comp::D),
        AsmView::AtReg(Reg::R13),
        AsmView::Assign(Dest::AM, Comp::MMinusOne),
        AsmView::Assign(Dest::D, Comp::M),
        AsmView::AtReg(Reg::This),
        AsmView::Assign(Dest::M, Comp::D),
        AsmView::AtReg(Reg::R13),
        AsmView::Assign(Dest::AM, Comp::MMinusOne),
        AsmView::Assign(Dest::D, Comp::M),
        AsmView::AtReg(Reg::Arg),
        AsmView::Assign(Dest::M, Comp::D),
        AsmView::AtReg(Reg::R13),
        AsmView::Assign(Dest::AM, Comp::MMinusOne),
        AsmView::Assign(Dest::D, Comp::M),
        AsmView::AtReg(Reg::Lcl),
        AsmView::Assign(Dest::M, Comp::D),
        AsmView::AtReg(Reg::R14),
        AsmView::Assign(Dest::A, Comp::M),
        AsmView::Branch(Comp::Zero, Jump::Jmp),
    ];
    assert(ops =~= flat);
    let frame = m.ram[1];
    let arg = m.ram[2];
    let s0 = exec(ops, env, 0, m, 9);
    assert(s0.0 == 9 && s0.1.ram == m.ram.insert(13, frame).insert(14, m.ram[frame - 5])) by {
        reveal_with_fuel(exec, 10);
        assert(s0.1.ram =~= m.ram.insert(13, frame).insert(14, m.ram[frame - 5]));
    }
    let s1 = exec(ops, env, 9, s0.1, 10);
    assert(s1.0 == 19 && s1.1.ram == s0.1.ram.insert(arg, m.ram[sp(m) - 1]).insert(0, arg + 1))
        by {
        reveal_with_fuel(exec, 11);
        assert(s1.1.ram =~= s0.1.ram.insert(arg, m.ram[sp(m) - 1]).insert(0, arg + 1));
    }
    lemma_return_restore(ops, env, 19, s1.1, Reg::That);
    let s2 = exec(ops, env, 19, s1.1, 5);
    lemma_return_restore(ops, env, 24, s2.1, Reg::This);
    let s3 = exec(ops, env, 24, s2.1, 5);
    lemma_return_restore(ops, env, 29, s3.1, Reg::Arg);
    let s4 = exec(ops, env, 29, s3.1, 5);
    lemma_return_restore(ops, env, 34, s4.1, Reg::Lcl);
    let s5 = exec(ops, env, 34, s4.1, 5);
    let s6 = exec(ops, env, 39, s5.1, 3);
    assert(s6.1.a == m.ram[frame - 5] && s6.1.ram == s5.1.ram) by {
        reveal_with_fuel(exec, 4);
    }
    lemma_exec_split(ops, env, 0, m, 9, 33);
    lemma_exec_split(ops, env, 9, s0.1, 10, 23);
    lemma_exec_split(ops, env, 19, s1.1, 5, 18);
    lemma_exec_split(ops, env, 24, s2.1, 5, 13);
    lemma_exec_split(ops, env, 29, s3.1, 5, 8);
    lemma_exec_split(ops, env, 34, s4.1, 5, 3);
    assert(exec(ops, env, 0, m, 42) == s6);
}

/// A return from a callee undoes the call that entered it. When the
/// callee returns with the frame that the call saved still in its place
/// and a value on the stack above it, the caller finds `LCL`, `ARG`,
/// `THIS` and `THAT` as they were before the call, the returned value in
/// the place of its first argument, `SP` at the cell after it, and
/// control at the return label of the call.
pub proof fn lemma_return_undoes_call(
    name: Seq<char>,
    args: u32,
    n: u64,
    env: Layout,
    m: Machine,
    callee: Machine,
)
    requires
        sp(m) - args > 15,
        leaves((env.labels)(LabelView::Named(name)), call_block(name, args, n).len()),
        leaves((env.labels)(LabelView::Return(n)), return_block().len()),
        sp(callee) > sp(m) + 5,
        callee.ram[1] == run(call_block(name, args, n), env, m).ram[1],
        callee.ram[2] == run(call_block(name, args, n), env, m).ram[2],
        forall|at: int|
            sp(m) <= at < sp(m) + 5 ==> callee.ram[at] == run(
                call_block(name, args, n),
                env,
                m,
            ).ram[at],
    ensures
        ({
            let after = run(return_block(), env, callee);
            &&& after.ram[1] == m.ram[1]
            &&& after.ram[2] == m.ram[2]
            &&& after.ram[3] == m.ram[3]
            &&& after.ram[4] == m.ram[4]
            &&& sp(after) == sp(m) - args + 1
            &&& after.ram[sp(m) - args] == callee.ram[sp(callee) - 1]
            &&& after.a == (env.labels)(LabelView::Return(n))
        }),
{
    lemma_call_saves_frame(name, args, n, env, m);
    lemma_return_restores_frame(env, callee);
}

} // verus!
