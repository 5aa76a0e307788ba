//! Instructions of the stack machine, and the classifier that reads one
//! from the fields of a source line.

use vstd::prelude::*;
use vstd::string::*;
use crate::numeral::{parse_number, parse_operand};
use crate::text::{same_text, str_views};

verus! {

/// The families of instructions.
#[derive(Clone, Copy, Debug, PartialEq, Eq, Structural)]
pub enum CommandType {
    Arithmetic,
    Branching,
    Function,
    Push,
    Pop,
}

/// The operation that an instruction names.
#[derive(Clone, Copy, Debug, PartialEq, Eq, Structural)]
pub enum Mnemonic {
    Add,
    Sub,
    Neg,
    Eq,
    Lt,
    Gt,
    And,
    Or,
    Not,
    Push,
    Pop,
    Label,
    Goto,
    IfGoto,
    Function,
    Call,
    Return,
}

/// The memory segments that `push` and `pop` address.
#[derive(Clone, Copy, Debug, PartialEq, Eq, Structural)]
pub enum Segment {
    Local,
    Argument,
    This,
    That,
    Constant,
    Static,
    Temp,
    Pointer,
}

/// Why an instruction could not be translated.
#[derive(Clone, Copy, Debug, PartialEq, Eq, Structural)]
pub enum TranslateError {
    /// The first field is no known mnemonic.
    UnsupportedInstruction,
    /// The segment keyword is no known segment.
    UnsupportedSegment,
    /// An offset or a count is no numeral, is too large, or an operand is not there.
    MalformedOperand,
    /// The `pointer` segment was addressed with an offset other than 0 and 1.
    InvalidPointerIndex,
    /// A `pop` names the `constant` segment.
    IllegalPopTarget,
    /// A `push` or `pop` holds no segment.
    MissingSegment,
}

/// One instruction, as the classifier reads it.
#[derive(Debug, PartialEq, Eq)]
pub struct LineParsing {
    pub mnemonic: Mnemonic,
    /// The segment of a `push` or `pop`.
    pub segment: Option<Segment>,
    /// The offset into the segment, the number of locals of a function, or
    /// the number of arguments of a call.
    pub offset: Option<u32>,
    /// The label of a branch, or the name of a function.
    pub label_text: Option<String>,
    /// The position of the instruction in the run, from which its
    /// generated labels are made.
    pub line_num: u64,
    /// The name of the unit, under which its static variables are kept.
    pub file_name: String,
}

/// An instruction as a mathematical value.
pub struct Instruction {
    pub mnemonic: Mnemonic,
    pub segment: Option<Segment>,
    pub offset: Option<u32>,
    pub label_text: Option<Seq<char>>,
    pub line_num: u64,
    pub file_name: Seq<char>,
}

impl View for LineParsing {
    type V = Instruction;

    open spec fn view(&self) -> Instruction {
        Instruction {
            mnemonic: self.mnemonic,
            segment: self.segment,
            offset: self.offset,
            label_text: match self.label_text {
                Some(s) => Some(s@),
                None => None,
            },
            line_num: self.line_num,
            file_name: self.file_name@,
        }
    }
}

impl Mnemonic {
    /// The family that an operation belongs to.
    pub open spec fn command_type(self) -> CommandType {
        match self {
            Mnemonic::Push => CommandType::Push,
            Mnemonic::Pop => CommandType::Pop,
            Mnemonic::Label | Mnemonic::Goto | Mnemonic::IfGoto => CommandType::Branching,
            Mnemonic::Function | Mnemonic::Call | Mnemonic::Return => CommandType::Function,
            _ => CommandType::Arithmetic,
        }
    }

    /// Whether the operation makes labels of its own, from the sequence
    /// number of its instruction.
    pub open spec fn mints_labels(self) -> bool {
        self == Mnemonic::Eq || self == Mnemonic::Lt || self == Mnemonic::Gt || self
            == Mnemonic::Call
    }

    /// The family that the operation belongs to.
    pub fn family(self) -> (t: CommandType)
        ensures
            t == self.command_type(),
    {
        match self {
            Mnemonic::Push => CommandType::Push,
            Mnemonic::Pop => CommandType::Pop,
            Mnemonic::Label | Mnemonic::Goto | Mnemonic::IfGoto => CommandType::Branching,
            Mnemonic::Function | Mnemonic::Call | Mnemonic::Return => CommandType::Function,
            _ => CommandType::Arithmetic,
        }
    }
}

impl Instruction {
    /// The operands that the instruction's family needs are there: an offset
    /// for `push` and `pop`, a label for a branch, a name and a count for
    /// `function` and `call`.
    pub open spec fn well_formed(self) -> bool {
        match self.mnemonic.command_type() {
            CommandType::Arithmetic => true,
            CommandType::Push | CommandType::Pop => self.offset is Some,
            CommandType::Branching => self.label_text is Some,
            CommandType::Function => self.mnemonic == Mnemonic::Return || (self.label_text is Some
                && self.offset is Some),
        }
    }
}

/// The operation that a first field names.
pub open spec fn mnemonic_of(s: Seq<char>) -> Option<Mnemonic> {
    if s == "push"@ {
        Some(Mnemonic::Push)
    } else if s == "pop"@ {
        Some(Mnemonic::Pop)
    } else if s == "add"@ {
        Some(Mnemonic::Add)
    } else if s == "sub"@ {
        Some(Mnemonic::Sub)
    } else if s == "eq"@ {
        Some(Mnemonic::Eq)
    } else if s == "lt"@ {
        Some(Mnemonic::Lt)
    } else if s == "gt"@ {
        Some(Mnemonic::Gt)
    } else if s == "neg"@ {
        Some(Mnemonic::Neg)
    } else if s == "and"@ {
        Some(Mnemonic::And)
    } else if s == "or"@ {
        Some(Mnemonic::Or)
    } else if s == "not"@ {
        Some(Mnemonic::Not)
    } else if s == "label"@ {
        Some(Mnemonic::Label)
    } else if s == "if-goto"@ {
        Some(Mnemonic::IfGoto)
    } else if s == "goto"@ {
        Some(Mnemonic::Goto)
    } else if s == "function"@ {
        Some(Mnemonic::Function)
    } else if s == "call"@ {
        Some(Mnemonic::Call)
    } else if s == "return"@ {
        Some(Mnemonic::Return)
    } else {
        None
    }
}

/// The segment that a keyword names.
pub open spec fn segment_of(s: Seq<char>) -> Option<Segment> {
    if s == "local"@ {
        Some(Segment::Local)
    } else if s == "argument"@ {
        Some(Segment::Argument)
    } else if s == "this"@ {
        Some(Segment::This)
    } else if s == "that"@ {
        Some(Segment::That)
    } else if s == "constant"@ {
        Some(Segment::Constant)
    } else if s == "static"@ {
        Some(Segment::Static)
    } else if s == "temp"@ {
        Some(Segment::Temp)
    } else if s == "pointer"@ {
        Some(Segment::Pointer)
    } else {
        None
    }
}

/// The operand in field `k`, or the error for a field that is not there or
/// holds no operand.
pub open spec fn operand_at(fields: Seq<Seq<char>>, k: int) -> Result<u32, TranslateError> {
    if k < fields.len() && parse_operand(fields[k]) is Some {
        Ok(parse_operand(fields[k])->0)
    } else {
        Err(TranslateError::MalformedOperand)
    }
}

/// What the classifier makes of the fields of a line: the instruction, or
/// the first error in the order mnemonic, segment, operands.
pub open spec fn classify(fields: Seq<Seq<char>>, line_num: u64, file_name: Seq<char>) -> Result<
    Instruction,
    TranslateError,
> {
    if fields.len() == 0 || mnemonic_of(fields[0]) is None {
        Err(TranslateError::UnsupportedInstruction)
    } else {
        let m = mnemonic_of(fields[0])->0;
        let bare = Instruction {
            mnemonic: m,
            segment: None,
            offset: None,
            label_text: None,
            line_num,
            file_name,
        };
        match m.command_type() {
            CommandType::Arithmetic => Ok(bare),
            CommandType::Push | CommandType::Pop => {
                if fields.len() < 2 || segment_of(fields[1]) is None {
                    Err(TranslateError::UnsupportedSegment)
                } else {
                    match operand_at(fields, 2) {
                        Ok(n) => Ok(
                            Instruction { segment: segment_of(fields[1]), offset: Some(n), ..bare },
                        ),
                        Err(e) => Err(e),
                    }
                }
            },
            CommandType::Branching => {
                if fields.len() < 2 {
                    Err(TranslateError::MalformedOperand)
                } else {
                    Ok(Instruction { label_text: Some(fields[1]), ..bare })
                }
            },
            CommandType::Function => {
                if m == Mnemonic::Return {
                    Ok(bare)
                } else if fields.len() < 2 {
                    Err(TranslateError::MalformedOperand)
                } else {
                    match operand_at(fields, 2) {
                        Ok(n) => Ok(
                            Instruction { label_text: Some(fields[1]), offset: Some(n), ..bare },
                        ),
                        Err(e) => Err(e),
                    }
                }
            },
        }
    }
}

/// What the classifier accepts carries the operands of its family, the
/// sequence number and the unit name that it was given, and, for a `push`
/// or a `pop`, a segment.
pub proof fn lemma_classified_is_well_formed(
    fields: Seq<Seq<char>>,
    line_num: u64,
    file_name: Seq<char>,
)
    requires
        classify(fields, line_num, file_name) is Ok,
    ensures
        classify(fields, line_num, file_name)->Ok_0.well_formed(),
        classify(fields, line_num, file_name)->Ok_0.line_num == line_num,
        classify(fields, line_num, file_name)->Ok_0.file_name == file_name,
        classify(fields, line_num, file_name)->Ok_0.mnemonic == mnemonic_of(fields[0])->0,
        ({
            let i = classify(fields, line_num, file_name)->Ok_0;
            i.mnemonic == Mnemonic::Push || i.mnemonic == Mnemonic::Pop ==> i.segment is Some
        }),
{
}

/// A classifier's result as a mathematical value.
pub open spec fn classified(r: Result<LineParsing, TranslateError>) -> Result<
    Instruction,
    TranslateError,
> {
    match r {
        Ok(i) => Ok(i@),
        Err(e) => Err(e),
    }
}

/// Reads the operation that a first field names.
pub fn read_mnemonic(s: &str) -> (r: Option<Mnemonic>)
    ensures
        r == mnemonic_of(s@),
{
    if same_text(s, "push") {
        Some(Mnemonic::Push)
    } else if same_text(s, "pop") {
        Some(Mnemonic::Pop)
    } else if same_text(s, "add") {
        Some(Mnemonic::Add)
    } else if same_text(s, "sub") {
        Some(Mnemonic::Sub)
    } else if same_text(s, "eq") {
        Some(Mnemonic::Eq)
    } else if same_text(s, "lt") {
        Some(Mnemonic::Lt)
    } else if same_text(s, "gt") {
        Some(Mnemonic::Gt)
    } else if same_text(s, "neg") {
        Some(Mnemonic::Neg)
    } else if same_text(s, "and") {
        Some(Mnemonic::And)
    } else if same_text(s, "or") {
        Some(Mnemonic::Or)
    } else if same_text(s, "not") {
        Some(Mnemonic::Not)
    } else if same_text(s, "label") {
        Some(Mnemonic::Label)
    } else if same_text(s, "if-goto") {
        Some(Mnemonic::IfGoto)
    } else if same_text(s, "goto") {
        Some(Mnemonic::Goto)
    } else if same_text(s, "function") {
        Some(Mnemonic::Function)
    } else if same_text(s, "call") {
        Some(Mnemonic::Call)
    } else if same_text(s, "return") {
        Some(Mnemonic::Return)
    } else {
        None
    }
}

/// Reads the segment that a keyword names.
pub fn read_segment(s: &str) -> (r: Option<Segment>)
    ensures
        r == segment_of(s@),
{
    if same_text(s, "local") {
        Some(Segment::Local)
    } else if same_text(s, "argument") {
        Some(Segment::Argument)
    } else if same_text(s, "this") {
        Some(Segment::This)
    } else if same_text(s, "that") {
        Some(Segment::That)
    } else if same_text(s, "constant") {
        Some(Segment::Constant)
    } else if same_text(s, "static") {
        Some(Segment::Static)
    } else if same_text(s, "temp") {
        Some(Segment::Temp)
    } else if same_text(s, "pointer") {
        Some(Segment::Pointer)
    } else {
        None
    }
}

/// Reads the operand in field `k`.
fn read_operand(line: &Vec<&str>, k: usize) -> (r: Result<u32, TranslateError>)
    ensures
        r == operand_at(str_views(line@), k as int),
{
    if k < line.len() {
        match parse_number(line[k]) {
            Some(n) => Ok(n),
            None => Err(TranslateError::MalformedOperand),
        }
    } else {
        Err(TranslateError::MalformedOperand)
    }
}

impl LineParsing {
    /// Classifies one line, given as its fields: the first field names the
    /// operation, the others hold what its family takes. Nothing is guessed:
    /// a field that cannot be read is an error.
    pub fn new(line: Vec<&str>, line_num: u64, file_name: String) -> (r: Result<
        LineParsing,
        TranslateError,
    >)
        ensures
            classified(r) == classify(str_views(line@), line_num, file_name@),
            r matches Ok(i) ==> i@.well_formed(),
    {
        if line.len() == 0 {
            return Err(TranslateError::UnsupportedInstruction);
        }
        let mnemonic = match read_mnemonic(line[0]) {
            Some(m) => m,
            None => {
                return Err(TranslateError::UnsupportedInstruction);
            },
        };
        let mut segment: Option<Segment> = None;
        let mut offset: Option<u32> = None;
        let mut label_text: Option<String> = None;
        match mnemonic.family() {
            CommandType::Arithmetic => {},
            CommandType::Push | CommandType::Pop => {
                if line.len() < 2 {
                    return Err(TranslateError::UnsupportedSegment);
                }
                segment = read_segment(line[1]);
                if segment.is_none() {
                    return Err(TranslateError::UnsupportedSegment);
                }
                match read_operand(&line, 2) {
                    Ok(n) => {
                        offset = Some(n);
                    },
                    Err(e) => {
                        return Err(e);
                    },
                }
            },
            CommandType::Branching => {
                if line.len() < 2 {
                    return Err(TranslateError::MalformedOperand);
                }
                label_text = Some(String::from_str(line[1]));
            },
            CommandType::Function => {
                if mnemonic != Mnemonic::Return {
                    if line.len() < 2 {
                        return Err(TranslateError::MalformedOperand);
                    }
                    match read_operand(&line, 2) {
                        Ok(n) => {
                            offset = Some(n);
                        },
                        Err(e) => {
                            return Err(e);
                        },
                    }
                    label_text = Some(String::from_str(line[1]));
                }
            },
        }
        Ok(LineParsing { mnemonic, segment, offset, label_text, line_num, file_name })
    }

    /// The family of the instruction.
    pub fn ctype(&self) -> (t: CommandType)
        ensures
            t == self@.mnemonic.command_type(),
    {
        self.mnemonic.family()
    }
}

} // verus!
