//! The translation of a unit: its lines in order, one block for each
//! instruction, with sequence numbers from one allocator for the whole run.

use vstd::prelude::*;
use vstd::string::*;
use crate::codegen::{generate, generated, rendered};
use crate::instruction::{
    Instruction, LineParsing, TranslateError, classify,
    lemma_classified_is_well_formed,
};
use crate::text::{
    clean_whitespace, cleaned, split_fields, split_line, split_on, split_range, str_views,
    trimmed,
};

verus! {

/// The source of sequence numbers for one translation run. Every
/// instruction of the run takes the number after the last one issued, so
/// no two share one, whatever units they stand in.
#[derive(Debug)]
pub struct LabelAllocator {
    /// The last number issued (0 before the first).
    pub last: u64,
}

impl LabelAllocator {
    /// An allocator for a new run: its first number will be 1.
    pub fn new() -> (a: LabelAllocator)
        ensures
            a.last == 0,
    {
        LabelAllocator { last: 0 }
    }

    /// Issues the next number.
    pub fn mint(&mut self) -> (n: u64)
        requires
            old(self).last < u64::MAX,
        ensures
            n == old(self).last + 1,
            final(self).last == n,
    {
        self.last = self.last + 1;
        self.last
    }
}

/// The block of the instruction that a cleaned line holds, as text.
pub open spec fn line_block(line: Seq<char>, n: u64, unit: Seq<char>) -> Result<
    Seq<char>,
    TranslateError,
> {
    match classify(split_fields(trimmed(line)), n, unit) {
        Ok(i) => rendered(generate(i)),
        Err(e) => Err(e),
    }
}

/// A line never fails for want of a segment: what the classifier accepts
/// as a `push` or a `pop` holds one.
pub proof fn lemma_line_block_has_segment(line: Seq<char>, n: u64, unit: Seq<char>)
    ensures
        line_block(line, n, unit) != Err::<Seq<char>, TranslateError>(
            TranslateError::MissingSegment,
        ),
{
    let fields = split_fields(trimmed(line));
    if classify(fields, n, unit) is Ok {
        lemma_classified_is_well_formed(fields, n, unit);
    }
}

/// `head`, then what `rest` holds; the error of `rest` where it is one.
pub open spec fn followed_by(head: Seq<Seq<char>>, rest: Result<Seq<Seq<char>>, TranslateError>)
    -> Result<Seq<Seq<char>>, TranslateError> {
    match rest {
        Ok(blocks) => Ok(head + blocks),
        Err(e) => Err(e),
    }
}

/// The blocks of a unit, in the order of its lines. A line that holds only
/// white space or a comment gives no block and takes no number; the first
/// line after `last` numbers issued takes `last + 1`. The first line that
/// fails gives its error, and no block is left.
pub open spec fn unit_blocks(lines: Seq<Seq<char>>, unit: Seq<char>, last: nat) -> Result<
    Seq<Seq<char>>,
    TranslateError,
>
    decreases lines.len(),
{
    if lines.len() == 0 {
        Ok(Seq::empty())
    } else if cleaned(lines[0]).len() == 0 {
        unit_blocks(lines.skip(1), unit, last)
    } else {
        match line_block(cleaned(lines[0]), (last + 1) as u64, unit) {
            Ok(b) => followed_by(seq![b], unit_blocks(lines.skip(1), unit, last + 1)),
            Err(e) => Err(e),
        }
    }
}

/// The sequence number of the first instruction of a unit that fails (of
/// the last one, where none fails).
pub open spec fn failing_number(lines: Seq<Seq<char>>, unit: Seq<char>, last: nat) -> nat
    decreases lines.len(),
{
    if lines.len() == 0 {
        last
    } else if cleaned(lines[0]).len() == 0 {
        failing_number(lines.skip(1), unit, last)
    } else if line_block(cleaned(lines[0]), (last + 1) as u64, unit) is Err {
        last + 1
    } else {
        failing_number(lines.skip(1), unit, last + 1)
    }
}

/// How many lines of a unit hold an instruction.
pub open spec fn instruction_count(lines: Seq<Seq<char>>) -> nat
    decreases lines.len(),
{
    if lines.len() == 0 {
        0
    } else if cleaned(lines[0]).len() == 0 {
        instruction_count(lines.skip(1))
    } else {
        1 + instruction_count(lines.skip(1))
    }
}

/// The lines of a unit that hold an instruction, cleaned, in their order.
pub open spec fn instruction_lines(lines: Seq<Seq<char>>) -> Seq<Seq<char>>
    decreases lines.len(),
{
    if lines.len() == 0 {
        Seq::empty()
    } else if cleaned(lines[0]).len() == 0 {
        instruction_lines(lines.skip(1))
    } else {
        seq![cleaned(lines[0])] + instruction_lines(lines.skip(1))
    }
}

/// The instruction at position `k` of a unit that starts after `last`
/// numbers issued: it takes the number `last + 1 + k`.
pub open spec fn instruction_at(lines: Seq<Seq<char>>, unit: Seq<char>, last: nat, k: int) -> Result<
    Instruction,
    TranslateError,
> {
    classify(split_fields(trimmed(instruction_lines(lines)[k])), (last + 1 + k) as u64, unit)
}

/// The blocks of a unit by position: block `k` is the block of the `k`-th
/// line that holds an instruction, translated under the number
/// `last + 1 + k`.
pub proof fn lemma_unit_blocks_by_position(lines: Seq<Seq<char>>, unit: Seq<char>, last: nat)
    requires
        unit_blocks(lines, unit, last) is Ok,
    ensures
        unit_blocks(lines, unit, last)->Ok_0.len() == instruction_count(lines),
        instruction_lines(lines).len() == instruction_count(lines),
        forall|k: int|
            0 <= k < instruction_count(lines) ==> rendered(
                match #[trigger] instruction_at(lines, unit, last, k) {
                    Ok(i) => generate(i),
                    Err(e) => Err(e),
                },
            ) == Ok::<Seq<char>, TranslateError>(unit_blocks(lines, unit, last)->Ok_0[k]),
    decreases lines.len(),
{
    if lines.len() == 0 {
    } else if cleaned(lines[0]).len() == 0 {
        lemma_unit_blocks_by_position(lines.skip(1), unit, last);
        assert forall|k: int| 0 <= k < instruction_count(lines) implies rendered(
            match #[trigger] instruction_at(lines, unit, last, k) {
                Ok(i) => generate(i),
                Err(e) => Err(e),
            },
        ) == Ok::<Seq<char>, TranslateError>(unit_blocks(lines, unit, last)->Ok_0[k]) by {
            assert(instruction_at(lines, unit, last, k) == instruction_at(
                lines.skip(1),
                unit,
                last,
                k,
            ));
        }
    } else {
        let rest = lines.skip(1);
        lemma_unit_blocks_by_position(rest, unit, last + 1);
        let b = line_block(cleaned(lines[0]), (last + 1) as u64, unit)->Ok_0;
        let blocks = unit_blocks(lines, unit, last)->Ok_0;
        assert(blocks == seq![b] + unit_blocks(rest, unit, last + 1)->Ok_0);
        assert forall|k: int| 0 <= k < instruction_count(lines) implies rendered(
            match #[trigger] instruction_at(lines, unit, last, k) {
                Ok(i) => generate(i),
                Err(e) => Err(e),
            },
        ) == Ok::<Seq<char>, TranslateError>(blocks[k]) by {
            if k > 0 {
                assert(instruction_at(lines, unit, last, k) == instruction_at(
                    rest,
                    unit,
                    last + 1,
                    k - 1,
                ));
                assert(blocks[k] == unit_blocks(rest, unit, last + 1)->Ok_0[k - 1]);
            }
        }
    }
}

/// The views of a sequence of blocks.
pub open spec fn block_views(blocks: Seq<String>) -> Seq<Seq<char>> {
    Seq::new(blocks.len(), |i: int| blocks[i]@)
}

/// The result of a unit's translation as a mathematical value.
pub open spec fn translated(r: Result<Vec<String>, TranslateError>) -> Result<
    Seq<Seq<char>>,
    TranslateError,
> {
    match r {
        Ok(blocks) => Ok(block_views(blocks@)),
        Err(e) => Err(e),
    }
}

/// Translates the instruction that a cleaned line holds, under the
/// sequence number `n`, in the unit `unit`.
pub fn translate_line(line: &str, n: u64, unit: &str) -> (r: Result<String, TranslateError>)
    ensures
        generated(r) == line_block(line@, n, unit@),
{
    let fields = split_line(line);
    match LineParsing::new(fields, n, String::from_str(unit)) {
        Ok(instruction) => instruction.parse(),
        Err(e) => Err(e),
    }
}

/// Translates a unit: one block for each line that holds an instruction,
/// in the order of the lines. The sequence numbers come from `labels`,
/// which a run of several units shares. The translation stops at the
/// first line that fails, with its error; the allocator then stands at the
/// number of the instruction that failed.
pub fn translate_unit(lines: &Vec<&str>, unit: &str, labels: &mut LabelAllocator) -> (r: Result<
    Vec<String>,
    TranslateError,
>)
    requires
        old(labels).last + lines@.len() <= u64::MAX,
    ensures
        translated(r) == unit_blocks(str_views(lines@), unit@, old(labels).last as nat),
        r is Ok ==> final(labels).last == old(labels).last + instruction_count(str_views(lines@)),
        r is Err ==> final(labels).last == failing_number(
            str_views(lines@),
            unit@,
            old(labels).last as nat,
        ),
{
    let mut out: Vec<String> = Vec::new();
    let mut i: usize = 0;
    let ghost all = str_views(lines@);
    let ghost first = labels.last;
    proof {
        assert(all.skip(0) =~= all);
        assert(block_views(out@) =~= Seq::<Seq<char>>::empty());
    }
    while i < lines.len()
        invariant
            i <= lines@.len(),
            all == str_views(lines@),
            first == old(labels).last,
            labels.last + (lines@.len() - i) <= u64::MAX,
            unit_blocks(all, unit@, first as nat) == followed_by(
                block_views(out@),
                unit_blocks(all.skip(i as int), unit@, labels.last as nat),
            ),
            first + instruction_count(all) == labels.last + instruction_count(all.skip(i as int)),
            failing_number(all, unit@, first as nat) == failing_number(
                all.skip(i as int),
                unit@,
                labels.last as nat,
            ),
        decreases lines@.len() - i,
    {
        proof {
            assert(all.skip(i as int).skip(1) =~= all.skip(i as int + 1));
            assert(all.skip(i as int)[0] == lines@[i as int]@);
        }
        match clean_whitespace(lines[i]) {
            Some(code) => {
                let n = labels.mint();
                match translate_line(code, n, unit) {
                    Ok(block) => {
                        let ghost before = block_views(out@);
                        out.push(block);
                        proof {
                            let rest = unit_blocks(all.skip(i as int + 1), unit@, n as nat);
                            assert(block_views(out@) =~= before + seq![block@]);
                            if rest is Ok {
                                assert((before + seq![block@]) + rest->Ok_0 =~= before + (
                                seq![block@] + rest->Ok_0));
                            }
                        }
                    },
                    Err(e) => {
                        proof {
                            let cur = all.skip(i as int);
                            assert(line_block(cleaned(cur[0]), n, unit@) == Err::<
                                Seq<char>,
                                TranslateError,
                            >(e));
                            assert(unit_blocks(cur, unit@, (n - 1) as nat) == Err::<
                                Seq<Seq<char>>,
                                TranslateError,
                            >(e));
                            assert(unit_blocks(all, unit@, first as nat) == Err::<
                                Seq<Seq<char>>,
                                TranslateError,
                            >(e));
                        }
                        return Err(e);
                    },
                }
            },
            None => {},
        }
        i += 1;
    }
    proof {
        assert(block_views(out@) + Seq::<Seq<char>>::empty() =~= block_views(out@));
    }
    Ok(out)
}

/// Blocks as one text: a line feed between each two, and none at either
/// end.
pub open spec fn joined(blocks: Seq<Seq<char>>) -> Seq<char>
    decreases blocks.len(),
{
    if blocks.len() == 0 {
        Seq::empty()
    } else if blocks.len() == 1 {
        blocks[0]
    } else {
        joined(blocks.drop_last()) + "\n"@ + blocks.last()
    }
}

/// The assembly text of a source text: the blocks of its lines, joined.
pub open spec fn source_text(contents: Seq<char>, unit: Seq<char>, last: nat) -> Result<
    Seq<char>,
    TranslateError,
> {
    match unit_blocks(split_on(contents, '\n'), unit, last) {
        Ok(blocks) => Ok(joined(blocks)),
        Err(e) => Err(e),
    }
}

/// Joins blocks into one text, with a line feed between each two.
pub fn join_blocks(blocks: &Vec<String>) -> (r: String)
    ensures
        r@ == joined(block_views(blocks@)),
{
    let mut out = String::new();
    let mut i: usize = 0;
    proof {
        assert(block_views(blocks@).take(0) =~= Seq::<Seq<char>>::empty());
    }
    while i < blocks.len()
        invariant
            i <= blocks.len(),
            out@ == joined(block_views(blocks@).take(i as int)),
        decreases blocks.len() - i,
    {
        proof {
            let next = block_views(blocks@).take(i as int + 1);
            assert(next.drop_last() =~= block_views(blocks@).take(i as int));
            assert(next.last() == blocks@[i as int]@);
            if i == 0 {
                assert(out@ + blocks@[0]@ =~= blocks@[0]@);
            }
        }
        if i > 0 {
            out.append("\n");
        }
        out.append(blocks[i].as_str());
        i += 1;
    }
    proof {
        assert(block_views(blocks@).take(blocks@.len() as int) =~= block_views(blocks@));
    }
    out
}

/// Translates a source text, one instruction to a line, into the text of
/// its assembly: the lines are parted at line feeds and translated as one
/// unit, and the blocks are joined with line feeds.
pub fn translate_source(contents: &str, unit: &str, labels: &mut LabelAllocator) -> (r: Result<
    String,
    TranslateError,
>)
    requires
        old(labels).last + contents@.len() + 1 <= u64::MAX,
    ensures
        generated(r) == source_text(contents@, unit@, old(labels).last as nat),
        r is Ok ==> final(labels).last == old(labels).last + instruction_count(
            split_on(contents@, '\n'),
        ),
        r is Err ==> final(labels).last == failing_number(
            split_on(contents@, '\n'),
            unit@,
            old(labels).last as nat,
        ),
{
    let n = contents.unicode_len();
    proof {
        assert(contents@.subrange(0, n as int) =~= contents@);
    }
    let lines = split_range(contents, 0, n, '\n');
    match translate_unit(&lines, unit, labels) {
        Ok(blocks) => Ok(join_blocks(&blocks)),
        Err(e) => Err(e),
    }
}

} // verus!
