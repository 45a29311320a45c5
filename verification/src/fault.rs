//! The faults that loading and running a program can report.

use vstd::prelude::*;
use vstd::string::StringExecFns;
use crate::number::{decimal, decimal_of};

verus! {

/// Why a token is not a signed decimal integer that fits in 32 bits.
#[derive(Clone, Copy, Debug, PartialEq, Eq, Structural)]
pub enum NumberFault {
    /// The token is empty.
    Empty,
    /// The token is not an optional sign followed by decimal digits.
    InvalidDigit,
    /// The number does not fit in 32 bits.
    OutOfRange,
}

/// Why a token is not a quoted variable name.
#[derive(Clone, Copy, Debug, PartialEq, Eq, Structural)]
pub enum VariableFault {
    /// Fewer than three characters.
    TooShort,
    /// A character outside ASCII.
    NotAscii,
    /// The first or the last character is not a single quote.
    BadQuotes,
    /// The name starts with something other than a letter or an underscore.
    BadFirstCharacter,
    /// The name holds something other than letters, digits and underscores.
    BadBodyCharacter,
}

/// What is wrong with one line of a program's text.
#[derive(Clone, Copy, Debug, PartialEq, Eq, Structural)]
pub enum SyntaxFault {
    /// The first token is no opcode.
    UnknownOpcode,
    /// The line holds `found` tokens where the opcode asks for `expected`,
    /// the opcode itself counted in both.
    WrongArity { expected: usize, found: usize },
    /// The operand is no 32-bit integer.
    BadInteger,
    /// The operand is no quoted variable name.
    BadIdentifier(VariableFault),
}

/// Why a text is not a program.
#[derive(Clone, Copy, Debug, PartialEq, Eq, Structural)]
pub enum LoadFault {
    /// Line number `line`, counted from one, is malformed.
    Syntax { line: usize, fault: SyntaxFault },
    /// The program holds no return instruction.
    MissingReturn,
    /// The first return instruction is not the last instruction.
    MisplacedReturn,
}

/// What stopped a run.
#[derive(Clone, Copy, Debug, PartialEq, Eq, Structural)]
pub enum RunFaultKind {
    /// An instruction needed more operands than the stack holds.
    StackUnderflow,
    /// A variable was read before it was written.
    UnboundVariable,
    /// A jump names a label that the program does not define.
    UnknownLabel,
    /// The divisor is zero.
    DivideByZero,
    /// The result of an arithmetic instruction does not fit in 32 bits.
    Overflow,
    /// The program counter left the program without a return instruction.
    RanOffEnd,
    /// The run was cut off after the number of steps it was allowed.
    StepLimit,
}

/// A fault at run time, with the index of the instruction it occurred at.
#[derive(Clone, Copy, Debug, PartialEq, Eq, Structural)]
pub struct RunFault {
    pub at: usize,
    pub kind: RunFaultKind,
}

impl VariableFault {
    /// The rule that the token breaks, in words.
    pub open spec fn text(self) -> Seq<char> {
        match self {
            VariableFault::TooShort => "a variable takes at least three characters"@,
            VariableFault::NotAscii => "a variable holds ASCII characters only"@,
            VariableFault::BadQuotes => "a variable stands between single quotes"@,
            VariableFault::BadFirstCharacter => "a variable starts with a letter or an underscore"@,
            VariableFault::BadBodyCharacter => "a variable holds letters, digits and underscores only"@,
        }
    }

    /// The rule that the token breaks, in words.
    pub fn message(&self) -> (text: String)
        ensures
            text@ == self.text(),
    {
        match self {
            VariableFault::TooShort => String::from_str(
                "a variable takes at least three characters",
            ),
            VariableFault::NotAscii => String::from_str("a variable holds ASCII characters only"),
            VariableFault::BadQuotes => String::from_str("a variable stands between single quotes"),
            VariableFault::BadFirstCharacter => String::from_str(
                "a variable starts with a letter or an underscore",
            ),
            VariableFault::BadBodyCharacter => String::from_str(
                "a variable holds letters, digits and underscores only",
            ),
        }
    }
}

impl SyntaxFault {
    /// What is wrong with the line, in words.
    pub open spec fn text(self) -> Seq<char> {
        match self {
            SyntaxFault::UnknownOpcode => "unknown opcode"@,
            SyntaxFault::WrongArity { expected, found } => "the opcode takes a line of "@
                + decimal_of(expected as nat) + " tokens, this one has "@ + decimal_of(
                found as nat,
            ),
            SyntaxFault::BadInteger => "the operand is no 32-bit integer"@,
            SyntaxFault::BadIdentifier(fault) => "the operand is no variable: "@ + fault.text(),
        }
    }

    /// What is wrong with the line, in words.
    pub fn message(&self) -> (text: String)
        ensures
            text@ == self.text(),
    {
        match self {
            SyntaxFault::UnknownOpcode => String::from_str("unknown opcode"),
            SyntaxFault::WrongArity { expected, found } => {
                let mut text = String::from_str("the opcode takes a line of ");
                text.append(decimal(*expected).as_str());
                text.append(" tokens, this one has ");
                text.append(decimal(*found).as_str());
                text
            },
            SyntaxFault::BadInteger => String::from_str("the operand is no 32-bit integer"),
            SyntaxFault::BadIdentifier(fault) => {
                let mut text = String::from_str("the operand is no variable: ");
                text.append(fault.message().as_str());
                text
            },
        }
    }
}

impl LoadFault {
    /// Why the text is not a program, in words.
    pub open spec fn text(self) -> Seq<char> {
        match self {
            LoadFault::Syntax { line, fault } => "line "@ + decimal_of(line as nat) + ": "@
                + fault.text(),
            LoadFault::MissingReturn => "the program holds no RETURN_VALUE"@,
            LoadFault::MisplacedReturn => "the program holds a RETURN_VALUE before its last instruction"@,
        }
    }

    /// Why the text is not a program, in words.
    pub fn message(&self) -> (text: String)
        ensures
            text@ == self.text(),
    {
        match self {
            LoadFault::Syntax { line, fault } => {
                let mut text = String::from_str("line ");
                text.append(decimal(*line).as_str());
                text.append(": ");
                text.append(fault.message().as_str());
                text
            },
            LoadFault::MissingReturn => String::from_str("the program holds no RETURN_VALUE"),
            LoadFault::MisplacedReturn => String::from_str(
                "the program holds a RETURN_VALUE before its last instruction",
            ),
        }
    }
}

impl RunFaultKind {
    /// What stopped the run, in words.
    pub open spec fn text(self) -> Seq<char> {
        match self {
            RunFaultKind::StackUnderflow => "the stack holds too few operands"@,
            RunFaultKind::UnboundVariable => "the variable was never written"@,
            RunFaultKind::UnknownLabel => "the label is not defined"@,
            RunFaultKind::DivideByZero => "division by zero"@,
            RunFaultKind::Overflow => "the result does not fit in 32 bits"@,
            RunFaultKind::RanOffEnd => "the program ended without RETURN_VALUE"@,
            RunFaultKind::StepLimit => "the run was cut off at its step limit"@,
        }
    }

    /// What stopped the run, in words.
    pub fn message(&self) -> (text: String)
        ensures
            text@ == self.text(),
    {
        match self {
            RunFaultKind::StackUnderflow => String::from_str("the stack holds too few operands"),
            RunFaultKind::UnboundVariable => String::from_str("the variable was never written"),
            RunFaultKind::UnknownLabel => String::from_str("the label is not defined"),
            RunFaultKind::DivideByZero => String::from_str("division by zero"),
            RunFaultKind::Overflow => String::from_str("the result does not fit in 32 bits"),
            RunFaultKind::RanOffEnd => String::from_str("the program ended without RETURN_VALUE"),
            RunFaultKind::StepLimit => String::from_str("the run was cut off at its step limit"),
        }
    }
}

impl RunFault {
    /// What stopped the run, and at which instruction, in words.
    /// Instructions are counted from zero.
    pub open spec fn text(self) -> Seq<char> {
        "instruction "@ + decimal_of(self.at as nat) + ": "@ + self.kind.text()
    }

    /// What stopped the run, and at which instruction, in words.
    pub fn message(&self) -> (text: String)
        ensures
            text@ == self.text(),
    {
        let mut text = String::from_str("instruction ");
        text.append(decimal(self.at).as_str());
        text.append(": ");
        text.append(self.kind.message().as_str());
        text
    }
}

} // verus!
