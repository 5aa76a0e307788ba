//! The labels that the generator makes up never collide, and static
//! variables of different units never share a symbol.

use vstd::prelude::*;
use crate::assembly::{AsmView, Comp, Dest, Jump, LabelView, Reg, label_text, line_text};
use crate::codegen::{
    call_tail, compare_tail, generate, pop_to_d, push_d, push_reg,
};
use crate::instruction::{Instruction, Mnemonic, lemma_classified_is_well_formed};
use crate::text::{split_fields, trimmed};
use crate::translate::{instruction_at, instruction_count, instruction_lines};
use crate::numeral::{decimal, lemma_decimal_injective};

verus! {

/// The labels that a block declares.
pub open spec fn declared(b: Seq<AsmView>) -> Set<LabelView> {
    Set::new(|l: LabelView| exists|k: int| 0 <= k < b.len() && b[k] == AsmView::Declare(l))
}

/// The labels that the generator makes up for an instruction: two for a
/// comparison, one for a call, all with the instruction's sequence number.
pub open spec fn minted(i: Instruction) -> Set<LabelView> {
    match i.mnemonic {
        Mnemonic::Eq | Mnemonic::Lt | Mnemonic::Gt => set![
            LabelView::True(i.line_num),
            LabelView::End(i.line_num),
        ],
        Mnemonic::Call => set![LabelView::Return(i.line_num)],
        _ => Set::empty(),
    }
}

/// A block in two parts declares what its parts declare.
pub proof fn lemma_declared_concat(a: Seq<AsmView>, b: Seq<AsmView>)
    ensures
        declared(a + b) == declared(a).union(declared(b)),
{
    assert forall|l: LabelView|
        declared(a + b).contains(l) <==> declared(a).contains(l) || declared(b).contains(
            l,
        ) by {
        if declared(a + b).contains(l) {
            let k = choose|k: int| 0 <= k < (a + b).len() && (a + b)[k] == AsmView::Declare(l);
            if k < a.len() {
                assert(a[k] == AsmView::Declare(l));
            } else {
                assert(b[k - a.len()] == AsmView::Declare(l));
            }
        }
        if declared(a).contains(l) {
            let k = choose|k: int| 0 <= k < a.len() && a[k] == AsmView::Declare(l);
            assert((a + b)[k] == AsmView::Declare(l));
        }
        if declared(b).contains(l) {
            let k = choose|k: int| 0 <= k < b.len() && b[k] == AsmView::Declare(l);
            assert((a + b)[k + a.len()] == AsmView::Declare(l));
        }
    }
    assert(declared(a + b) =~= declared(a).union(declared(b)));
}

proof fn lemma_stack_moves_declare_nothing()
    ensures
        declared(pop_to_d()) == Set::<LabelView>::empty(),
        declared(push_d()) == Set::<LabelView>::empty(),
        forall|r: Reg| #[trigger] declared(push_reg(r)) == Set::<LabelView>::empty(),
{
    assert(declared(pop_to_d()) =~= Set::<LabelView>::empty());
    assert(declared(push_d()) =~= Set::<LabelView>::empty());
    assert forall|r: Reg| #[trigger]
        declared(push_reg(r)) == Set::<LabelView>::empty() by {
        let head = seq![
            AsmView::AtReg(r),
            AsmView::Assign(Dest::D, Comp::M),
        ];
        lemma_declared_concat(head, push_d());
        assert(declared(head) =~= Set::<LabelView>::empty());
        assert(declared(push_reg(r)) =~= Set::<LabelView>::empty());
    }
}

/// The block of a comparison or of a call declares the labels made up for
/// it, and no other.
pub proof fn lemma_declares_what_it_minted(i: Instruction)
    requires
        i.mnemonic.mints_labels(),
        i.well_formed(),
    ensures
        generate(i) is Ok,
        declared(generate(i)->Ok_0) == minted(i),
{
    lemma_stack_moves_declare_nothing();
    let n = i.line_num;
    let b = generate(i)->Ok_0;
    if i.mnemonic == Mnemonic::Call {
        let name = i.label_text->0;
        let args = i.offset->0;
        let start = seq![
            AsmView::AtLabel(LabelView::Return(n)),
            AsmView::Assign(Dest::D, Comp::A),
        ];
        let with_return = start + push_d();
        let with_lcl = with_return + push_reg(Reg::Lcl);
        let with_arg = with_lcl + push_reg(Reg::Arg);
        let with_this = with_arg + push_reg(Reg::This);
        let with_that = with_this + push_reg(Reg::That);
        let tail = call_tail(name, args, n);
        assert(b == with_that + tail);
        lemma_declared_concat(start, push_d());
        lemma_declared_concat(with_return, push_reg(Reg::Lcl));
        lemma_declared_concat(with_lcl, push_reg(Reg::Arg));
        lemma_declared_concat(with_arg, push_reg(Reg::This));
        lemma_declared_concat(with_this, push_reg(Reg::That));
        lemma_declared_concat(with_that, tail);
        assert(declared(start) =~= Set::<LabelView>::empty());
        assert(tail[14] == AsmView::Declare(LabelView::Return(n)));
        assert(declared(tail) =~= set![LabelView::Return(n)]);
        assert(declared(b) =~= minted(i));
    } else {
        let j = match i.mnemonic {
            Mnemonic::Eq => Jump::Jeq,
            Mnemonic::Lt => Jump::Jlt,
            _ => Jump::Jgt,
        };
        let tail = compare_tail(j, n);
        assert(b == pop_to_d() + tail);
        lemma_declared_concat(pop_to_d(), tail);
        assert(tail[9] == AsmView::Declare(LabelView::True(n)));
        assert(tail[13] == AsmView::Declare(LabelView::End(n)));
        assert(declared(tail) =~= set![LabelView::True(n), LabelView::End(n)]);
        assert(declared(b) =~= minted(i));
    }
}

/// Two labels that the generator made up are written alike only where
/// they are the same label.
pub proof fn lemma_generated_labels_differ(a: LabelView, b: LabelView)
    requires
        !(a is Named),
        !(b is Named),
        a != b,
    ensures
        label_text(a) != label_text(b),
{
    reveal_strlit("true");
    reveal_strlit("end");
    reveal_strlit("ret");
    let (pa, na): (Seq<char>, u64) = match a {
        LabelView::True(n) => ("true"@, n),
        LabelView::End(n) => ("end"@, n),
        LabelView::Return(n) => ("ret"@, n),
        LabelView::Named(_) => (Seq::empty(), 0),
    };
    let (pb, nb): (Seq<char>, u64) = match b {
        LabelView::True(n) => ("true"@, n),
        LabelView::End(n) => ("end"@, n),
        LabelView::Return(n) => ("ret"@, n),
        LabelView::Named(_) => (Seq::empty(), 0),
    };
    assert(label_text(a) == pa + decimal(na as nat));
    assert(label_text(b) == pb + decimal(nb as nat));
    if label_text(a) == label_text(b) {
        assert((pa + decimal(na as nat))[0] == pa[0]);
        assert((pb + decimal(nb as nat))[0] == pb[0]);
        assert(pa == pb);
        assert((pa + decimal(na as nat)).skip(pa.len() as int) =~= decimal(na as nat));
        assert((pb + decimal(nb as nat)).skip(pb.len() as int) =~= decimal(nb as nat));
        lemma_decimal_injective(na as nat, nb as nat);
    }
}

/// No two label declarations of the generator's making collide: of two
/// comparisons or calls with different sequence numbers, no label of the
/// one is written like a label of the other; and the labels of one
/// instruction are written differently from each other.
pub proof fn lemma_minted_labels_are_unique(i: Instruction, j: Instruction)
    requires
        i.mnemonic.mints_labels(),
        j.mnemonic.mints_labels(),
        i.well_formed(),
        j.well_formed(),
    ensures
        generate(i) is Ok,
        generate(j) is Ok,
        i.line_num != j.line_num ==> forall|a: LabelView, b: LabelView|
            declared(generate(i)->Ok_0).contains(a) && declared(generate(j)->Ok_0).contains(b)
                ==> label_text(a) != label_text(b),
        forall|a: LabelView, b: LabelView|
            declared(generate(i)->Ok_0).contains(a) && declared(generate(i)->Ok_0).contains(b)
                && a != b ==> label_text(a) != label_text(b),
{
    lemma_declares_what_it_minted(i);
    lemma_declares_what_it_minted(j);
    assert forall|a: LabelView, b: LabelView|
        minted(i).contains(a) && (minted(j).contains(b) || minted(i).contains(b)) && a
            != b implies label_text(a) != label_text(b) by {
        lemma_generated_labels_differ(a, b);
    }
}

/// In one run no two comparisons or calls share a generated label: two
/// instructions that stand at different sequence numbers, in one unit or
/// in two units that take their numbers from one allocator, declare
/// labels that are written differently.
pub proof fn lemma_run_labels_are_unique(
    lines1: Seq<Seq<char>>,
    unit1: Seq<char>,
    last1: nat,
    k1: int,
    lines2: Seq<Seq<char>>,
    unit2: Seq<char>,
    last2: nat,
    k2: int,
)
    requires
        0 <= k1 < instruction_count(lines1),
        0 <= k2 < instruction_count(lines2),
        last1 + instruction_count(lines1) <= u64::MAX,
        last2 + instruction_count(lines2) <= u64::MAX,
        last1 + k1 != last2 + k2,
        instruction_at(lines1, unit1, last1, k1) is Ok,
        instruction_at(lines2, unit2, last2, k2) is Ok,
        instruction_at(lines1, unit1, last1, k1)->Ok_0.mnemonic.mints_labels(),
        instruction_at(lines2, unit2, last2, k2)->Ok_0.mnemonic.mints_labels(),
    ensures
        generate(instruction_at(lines1, unit1, last1, k1)->Ok_0) is Ok,
        generate(instruction_at(lines2, unit2, last2, k2)->Ok_0) is Ok,
        forall|a: LabelView, b: LabelView|
            declared(generate(instruction_at(lines1, unit1, last1, k1)->Ok_0)->Ok_0).contains(a)
                && declared(
                generate(instruction_at(lines2, unit2, last2, k2)->Ok_0)->Ok_0,
            ).contains(b) ==> label_text(a) != label_text(b),
{
    let f1 = split_fields(trimmed(instruction_lines(lines1)[k1]));
    let f2 = split_fields(trimmed(instruction_lines(lines2)[k2]));
    lemma_classified_is_well_formed(f1, (last1 + 1 + k1) as u64, unit1);
    lemma_classified_is_well_formed(f2, (last2 + 1 + k2) as u64, unit2);
    lemma_minted_labels_are_unique(
        instruction_at(lines1, unit1, last1, k1)->Ok_0,
        instruction_at(lines2, unit2, last2, k2)->Ok_0,
    );
}

/// Static variables of different units never share a symbol, and those of
/// one unit share one only where they have the same offset.
pub proof fn lemma_static_symbols(u1: Seq<char>, n1: u32, u2: Seq<char>, n2: u32)
    ensures
        (u1 == u2 && n1 == n2) ==> line_text(AsmView::AtStatic(u1, n1)) == line_text(
            AsmView::AtStatic(u2, n2),
        ),
        (u1 != u2 && n1 == n2) ==> line_text(AsmView::AtStatic(u1, n1)) != line_text(
            AsmView::AtStatic(u2, n2),
        ),
        (u1 == u2 && n1 != n2) ==> line_text(AsmView::AtStatic(u1, n1)) != line_text(
            AsmView::AtStatic(u2, n2),
        ),
{
    reveal_strlit("@");
    reveal_strlit(".");
    let t1 = line_text(AsmView::AtStatic(u1, n1));
    let t2 = line_text(AsmView::AtStatic(u2, n2));
    let d1 = decimal(n1 as nat);
    let d2 = decimal(n2 as nat);
    if t1 == t2 {
        assert(t1.len() == 2 + u1.len() + d1.len());
        assert(t2.len() == 2 + u2.len() + d2.len());
        if n1 == n2 {
            assert(u1.len() == u2.len());
            assert forall|k: int| 0 <= k < u1.len() implies u1[k] == u2[k] by {
                assert(t1[k + 1] == u1[k]);
                assert(t2[k + 1] == u2[k]);
            }
            assert(u1 =~= u2);
        }
        if u1 == u2 {
            assert(t1.skip(2 + u1.len() as int) =~= d1);
            assert(t2.skip(2 + u2.len() as int) =~= d2);
            lemma_decimal_injective(n1 as nat, n2 as nat);
        }
    }
}

} // verus!
