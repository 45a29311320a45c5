//! The instruction set, and the reading of one line of program text.

use vstd::prelude::*;
use crate::fault::SyntaxFault;
use crate::identifier::variable_of;
use crate::number::i32_of;
use crate::text::{same_text, tokens_of};

verus! {

/// One instruction of a program.
#[derive(Debug, PartialEq, Eq)]
pub enum Instruction {
    /// Pushes a number.
    LoadValue(i32),
    /// Pops a number into a variable.
    WriteVar(String),
    /// Pushes the value of a variable.
    ReadVar(String),
    /// Pops two numbers and pushes their sum.
    Add,
    /// Pops `x`, then `y`, and pushes `y - x`.
    Subtract,
    /// Pops two numbers and pushes their product.
    Multiply,
    /// Pops `x`, then `y`, and pushes `y / x`, rounded towards zero.
    Divide,
    /// Pops `x` and pushes `x` minus the operand.
    Compare(i32),
    /// Goes on at a label.
    Jump(String),
    /// Pops a number and goes on at a label if the number is negative.
    JumpIfNegative(String),
    /// Pops the result and ends the run.
    Return,
}

/// An instruction as a mathematical value: names are sequences of
/// characters.
pub enum Instr {
    LoadValue(i32),
    WriteVar(Seq<char>),
    ReadVar(Seq<char>),
    Add,
    Subtract,
    Multiply,
    Divide,
    Compare(i32),
    Jump(Seq<char>),
    JumpIfNegative(Seq<char>),
    Return,
}

impl View for Instruction {
    type V = Instr;

    open spec fn view(&self) -> Instr {
        match self {
            Instruction::LoadValue(n) => Instr::LoadValue(*n),
            Instruction::WriteVar(name) => Instr::WriteVar(name@),
            Instruction::ReadVar(name) => Instr::ReadVar(name@),
            Instruction::Add => Instr::Add,
            Instruction::Subtract => Instr::Subtract,
            Instruction::Multiply => Instr::Multiply,
            Instruction::Divide => Instr::Divide,
            Instruction::Compare(n) => Instr::Compare(*n),
            Instruction::Jump(label) => Instr::Jump(label@),
            Instruction::JumpIfNegative(label) => Instr::JumpIfNegative(label@),
            Instruction::Return => Instr::Return,
        }
    }
}

/// The words a line can start with.
#[derive(Clone, Copy, Debug, PartialEq, Eq, Structural)]
pub enum Opcode {
    LoadValue,
    WriteVar,
    ReadVar,
    Add,
    Subtract,
    Multiply,
    Divide,
    Compare,
    Jump,
    JumpIfNegative,
    Return,
    Label,
}

/// The opcode that a token spells, if it spells one.
pub open spec fn opcode_of(token: Seq<char>) -> Option<Opcode> {
    if token == "LOAD_VAL"@ {
        Some(Opcode::LoadValue)
    } else if token == "WRITE_VAR"@ {
        Some(Opcode::WriteVar)
    } else if token == "READ_VAR"@ {
        Some(Opcode::ReadVar)
    } else if token == "CMP"@ {
        Some(Opcode::Compare)
    } else if token == "JMP"@ {
        Some(Opcode::Jump)
    } else if token == "JMP_LE"@ {
        Some(Opcode::JumpIfNegative)
    } else if token == "ADD"@ {
        Some(Opcode::Add)
    } else if token == "SUB"@ {
        Some(Opcode::Subtract)
    } else if token == "MULTIPLY"@ {
        Some(Opcode::Multiply)
    } else if token == "DIVIDE"@ {
        Some(Opcode::Divide)
    } else if token == "RETURN_VALUE"@ {
        Some(Opcode::Return)
    } else if token == "LABEL"@ {
        Some(Opcode::Label)
    } else {
        None
    }
}

/// The number of tokens on a line that starts with `op`, the opcode
/// itself counted.
pub open spec fn line_length(op: Opcode) -> usize {
    match op {
        Opcode::LoadValue
        | Opcode::WriteVar
        | Opcode::ReadVar
        | Opcode::Compare
        | Opcode::Jump
        | Opcode::JumpIfNegative
        | Opcode::Label => 2,
        Opcode::Add
        | Opcode::Subtract
        | Opcode::Multiply
        | Opcode::Divide
        | Opcode::Return => 1,
    }
}

/// What one line of text contributes to a program.
pub enum Line {
    /// Nothing: the line holds no token.
    Blank,
    /// One instruction.
    Emit(Instr),
    /// A name for the position of the next instruction.
    Label(Seq<char>),
}

/// What one line of text contributes to a program.
#[derive(Debug, PartialEq, Eq)]
pub enum Statement {
    /// Nothing: the line holds no token.
    Blank,
    /// One instruction.
    Emit(Instruction),
    /// A name for the position of the next instruction.
    Label(String),
}

impl View for Statement {
    type V = Line;

    open spec fn view(&self) -> Line {
        match self {
            Statement::Blank => Line::Blank,
            Statement::Emit(instruction) => Line::Emit(instruction@),
            Statement::Label(name) => Line::Label(name@),
        }
    }
}

/// What a line with the right number of tokens for its opcode means.
pub open spec fn operation_of(op: Opcode, tokens: Seq<Seq<char>>) -> Result<Line, SyntaxFault> {
    match op {
        Opcode::LoadValue => match i32_of(tokens[1]) {
            Ok(n) => Ok(Line::Emit(Instr::LoadValue(n))),
            Err(_) => Err(SyntaxFault::BadInteger),
        },
        Opcode::Compare => match i32_of(tokens[1]) {
            Ok(n) => Ok(Line::Emit(Instr::Compare(n))),
            Err(_) => Err(SyntaxFault::BadInteger),
        },
        Opcode::WriteVar => match variable_of(tokens[1]) {
            Ok(name) => Ok(Line::Emit(Instr::WriteVar(name))),
            Err(fault) => Err(SyntaxFault::BadIdentifier(fault)),
        },
        Opcode::ReadVar => match variable_of(tokens[1]) {
            Ok(name) => Ok(Line::Emit(Instr::ReadVar(name))),
            Err(fault) => Err(SyntaxFault::BadIdentifier(fault)),
        },
        Opcode::Jump => Ok(Line::Emit(Instr::Jump(tokens[1]))),
        Opcode::JumpIfNegative => Ok(Line::Emit(Instr::JumpIfNegative(tokens[1]))),
        Opcode::Label => Ok(Line::Label(tokens[1])),
        Opcode::Add => Ok(Line::Emit(Instr::Add)),
        Opcode::Subtract => Ok(Line::Emit(Instr::Subtract)),
        Opcode::Multiply => Ok(Line::Emit(Instr::Multiply)),
        Opcode::Divide => Ok(Line::Emit(Instr::Divide)),
        Opcode::Return => Ok(Line::Emit(Instr::Return)),
    }
}

/// What the tokens of one line mean, or the first thing wrong with them:
/// the opcode is looked at first, then the number of tokens, then the
/// operand.
pub open spec fn statement_of(tokens: Seq<Seq<char>>) -> Result<Line, SyntaxFault> {
    if tokens.len() == 0 {
        Ok(Line::Blank)
    } else {
        match opcode_of(tokens[0]) {
            None => Err(SyntaxFault::UnknownOpcode),
            Some(op) => if tokens.len() != line_length(op) {
                Err(
                    SyntaxFault::WrongArity {
                        expected: line_length(op),
                        found: tokens.len() as usize,
                    },
                )
            } else {
                operation_of(op, tokens)
            },
        }
    }
}

/// What a line of text means.
pub open spec fn line_of(line: Seq<char>) -> Result<Line, SyntaxFault> {
    statement_of(tokens_of(line))
}

impl Opcode {
    /// Reads an opcode.
    pub fn from_token(token: &str) -> (res: Option<Opcode>)
        ensures
            res == opcode_of(token@),
    {
        if same_text(token, "LOAD_VAL") {
            Some(Opcode::LoadValue)
        } else if same_text(token, "WRITE_VAR") {
            Some(Opcode::WriteVar)
        } else if same_text(token, "READ_VAR") {
            Some(Opcode::ReadVar)
        } else if same_text(token, "CMP") {
            Some(Opcode::Compare)
        } else if same_text(token, "JMP") {
            Some(Opcode::Jump)
        } else if same_text(token, "JMP_LE") {
            Some(Opcode::JumpIfNegative)
        } else if same_text(token, "ADD") {
            Some(Opcode::Add)
        } else if same_text(token, "SUB") {
            Some(Opcode::Subtract)
        } else if same_text(token, "MULTIPLY") {
            Some(Opcode::Multiply)
        } else if same_text(token, "DIVIDE") {
            Some(Opcode::Divide)
        } else if same_text(token, "RETURN_VALUE") {
            Some(Opcode::Return)
        } else if same_text(token, "LABEL") {
            Some(Opcode::Label)
        } else {
            None
        }
    }

    /// The number of tokens on a line that starts with this opcode, the
    /// opcode itself counted.
    pub fn line_length(self) -> (n: usize)
        ensures
            n == line_length(self),
    {
        match self {
            Opcode::LoadValue
            | Opcode::WriteVar
            | Opcode::ReadVar
            | Opcode::Compare
            | Opcode::Jump
            | Opcode::JumpIfNegative
            | Opcode::Label => 2,
            Opcode::Add
            | Opcode::Subtract
            | Opcode::Multiply
            | Opcode::Divide
            | Opcode::Return => 1,
        }
    }
}

} // verus!
