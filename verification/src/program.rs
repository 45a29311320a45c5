//! Programs, and the loader that assembles one from lines of text.

use vstd::prelude::*;
use vstd::hash_map::StringHashMap;
use crate::fault::{LoadFault, SyntaxFault};
use crate::identifier::valid_variable;
use crate::instruction::{line_of, operation_of, Instr, Instruction, Line, Opcode, Statement};
use crate::number::parse_i32;
use crate::text::split_tokens;

verus! {

/// A program as a mathematical value: its instructions in order, and the
/// position that each label names.
pub struct ProgramModel {
    pub code: Seq<Instr>,
    pub labels: Map<Seq<char>, usize>,
}

impl ProgramModel {
    /// The program without instructions and labels.
    pub open spec fn empty() -> ProgramModel {
        ProgramModel { code: Seq::empty(), labels: Map::empty() }
    }

    /// The program after one more line. A label names the position of the
    /// instruction that the next instruction line will add.
    pub open spec fn extended(self, line: Line) -> ProgramModel {
        match line {
            Line::Blank => self,
            Line::Emit(instr) => ProgramModel { code: self.code.push(instr), labels: self.labels },
            Line::Label(name) => ProgramModel {
                code: self.code,
                labels: self.labels.insert(name, self.code.len() as usize),
            },
        }
    }

    /// Every label names an instruction, or the position after the last.
    pub open spec fn labels_in_range(self) -> bool {
        forall|name: Seq<char>| #[trigger]
            self.labels.contains_key(name) ==> self.labels[name] <= self.code.len()
    }
}

/// Whether the code holds a return instruction.
pub open spec fn has_return(code: Seq<Instr>) -> bool {
    exists|i: int| 0 <= i < code.len() && #[trigger] code[i] == Instr::Return
}

/// Whether the code ends with a return instruction and holds no other.
pub open spec fn ends_with_sole_return(code: Seq<Instr>) -> bool {
    &&& code.len() > 0
    &&& code.last() == Instr::Return
    &&& forall|i: int| 0 <= i < code.len() - 1 ==> #[trigger] code[i] != Instr::Return
}

/// The program that the lines assemble to, or the fault of the first
/// malformed line. Lines are numbered from one.
pub open spec fn assemble(lines: Seq<Seq<char>>) -> Result<ProgramModel, LoadFault>
    decreases lines.len(),
{
    if lines.len() == 0 {
        Ok(ProgramModel::empty())
    } else {
        match assemble(lines.drop_last()) {
            Err(fault) => Err(fault),
            Ok(program) => match line_of(lines.last()) {
                Err(fault) => Err(LoadFault::Syntax { line: lines.len() as usize, fault }),
                Ok(line) => Ok(program.extended(line)),
            },
        }
    }
}

/// What loading the lines gives: the assembled program where every line
/// is well formed and the code ends with its only return instruction.
pub open spec fn load_of(lines: Seq<Seq<char>>) -> Result<ProgramModel, LoadFault> {
    match assemble(lines) {
        Err(fault) => Err(fault),
        Ok(program) => if !has_return(program.code) {
            Err(LoadFault::MissingReturn)
        } else if !ends_with_sole_return(program.code) {
            Err(LoadFault::MisplacedReturn)
        } else {
            Ok(program)
        },
    }
}

/// A fault among the first `k` lines is the fault of the whole text.
pub proof fn lemma_assemble_keeps_first_fault(lines: Seq<Seq<char>>, k: int)
    requires
        0 <= k <= lines.len(),
        assemble(lines.take(k)) is Err,
    ensures
        assemble(lines) == assemble(lines.take(k)),
    decreases lines.len() - k,
{
    if k < lines.len() {
        assert(lines.take(k + 1).drop_last() =~= lines.take(k));
        lemma_assemble_keeps_first_fault(lines, k + 1);
    } else {
        assert(lines.take(k) =~= lines);
    }
}

/// A program: instructions, and the label table that jumps are resolved
/// with.
#[allow(non_camel_case_types)]
pub struct byte_code {
    instruction_sets: Vec<Instruction>,
    label_to_instruction: StringHashMap<usize>,
}

impl View for byte_code {
    type V = ProgramModel;

    closed spec fn view(&self) -> ProgramModel {
        ProgramModel {
            code: self.instruction_sets@.map_values(|i: Instruction| i@),
            labels: self.label_to_instruction@,
        }
    }
}

impl byte_code {
    /// The program without instructions and labels.
    pub fn new() -> (program: byte_code)
        ensures
            program@ == ProgramModel::empty(),
    {
        let program = byte_code {
            instruction_sets: Vec::<Instruction>::new(),
            label_to_instruction: StringHashMap::<usize>::new(),
        };
        assert(program@.code =~= Seq::<Instr>::empty());
        program
    }

    /// Checks that a line holds as many tokens as its opcode asks for, the
    /// opcode itself counted.
    pub fn check_length(buffer: &Vec<String>, expected_length: usize) -> (res: Result<
        (),
        SyntaxFault,
    >)
        ensures
            buffer.len() == expected_length ==> res == Ok::<(), SyntaxFault>(()),
            buffer.len() != expected_length ==> res == Err::<(), SyntaxFault>(
                SyntaxFault::WrongArity { expected: expected_length, found: buffer.len() },
            ),
    {
        if buffer.len() != expected_length {
            return Err(SyntaxFault::WrongArity { expected: expected_length, found: buffer.len() });
        }
        Ok(())
    }

    /// Keeps a success, and reports any failure as `fault`.
    pub fn convert_to_result<T, E>(res: Result<T, E>, fault: SyntaxFault) -> (out: Result<
        T,
        SyntaxFault,
    >)
        ensures
            res is Ok ==> out == Ok::<T, SyntaxFault>(res->Ok_0),
            res is Err ==> out == Err::<T, SyntaxFault>(fault),
    {
        match res {
            Ok(value) => Ok(value),
            Err(_) => Err(fault),
        }
    }

    /// Reads the operand of a line that has the right number of tokens.
    fn read_operation(op: Opcode, buffer: &Vec<String>) -> (res: Result<Statement, SyntaxFault>)
        requires
            buffer.len() == crate::instruction::line_length(op),
        ensures
            match operation_of(op, buffer.deep_view()) {
                Ok(line) => res is Ok && res->Ok_0@ == line,
                Err(fault) => res == Err::<Statement, SyntaxFault>(fault),
            },
    {
        match op {
            Opcode::LoadValue => {
                assert(buffer.deep_view()[1] == buffer[1]@);
                let value = byte_code::convert_to_result(
                    parse_i32(buffer[1].as_str()),
                    SyntaxFault::BadInteger,
                )?;
                Ok(Statement::Emit(Instruction::LoadValue(value)))
            },
            Opcode::Compare => {
                assert(buffer.deep_view()[1] == buffer[1]@);
                let value = byte_code::convert_to_result(
                    parse_i32(buffer[1].as_str()),
                    SyntaxFault::BadInteger,
                )?;
                Ok(Statement::Emit(Instruction::Compare(value)))
            },
            Opcode::WriteVar => {
                assert(buffer.deep_view()[1] == buffer[1]@);
                match valid_variable(buffer[1].clone()) {
                    Ok(name) => Ok(Statement::Emit(Instruction::WriteVar(name))),
                    Err(fault) => Err(SyntaxFault::BadIdentifier(fault)),
                }
            },
            Opcode::ReadVar => {
                assert(buffer.deep_view()[1] == buffer[1]@);
                match valid_variable(buffer[1].clone()) {
                    Ok(name) => Ok(Statement::Emit(Instruction::ReadVar(name))),
                    Err(fault) => Err(SyntaxFault::BadIdentifier(fault)),
                }
            },
            Opcode::Jump => {
                assert(buffer.deep_view()[1] == buffer[1]@);
                Ok(Statement::Emit(Instruction::Jump(buffer[1].clone())))
            },
            Opcode::JumpIfNegative => {
                assert(buffer.deep_view()[1] == buffer[1]@);
                Ok(Statement::Emit(Instruction::JumpIfNegative(buffer[1].clone())))
            },
            Opcode::Label => {
                assert(buffer.deep_view()[1] == buffer[1]@);
                Ok(Statement::Label(buffer[1].clone()))
            },
            Opcode::Add => Ok(Statement::Emit(Instruction::Add)),
            Opcode::Subtract => Ok(Statement::Emit(Instruction::Subtract)),
            Opcode::Multiply => Ok(Statement::Emit(Instruction::Multiply)),
            Opcode::Divide => Ok(Statement::Emit(Instruction::Divide)),
            Opcode::Return => Ok(Statement::Emit(Instruction::Return)),
        }
    }

    /// Reads one line of program text.
    pub fn read_line(line: &str) -> (res: Result<Statement, SyntaxFault>)
        ensures
            match line_of(line@) {
                Ok(meaning) => res is Ok && res->Ok_0@ == meaning,
                Err(fault) => res == Err::<Statement, SyntaxFault>(fault),
            },
    {
        let buffer = split_tokens(line);
        if buffer.len() == 0 {
            return Ok(Statement::Blank);
        }
        assert(buffer.deep_view()[0] == buffer[0]@);
        match Opcode::from_token(buffer[0].as_str()) {
            None => Err(SyntaxFault::UnknownOpcode),
            Some(op) => {
                byte_code::check_length(&buffer, op.line_length())?;
                byte_code::read_operation(op, &buffer)
            },
        }
    }

    /// Assembles a program from the lines of its text. Loading gives the
    /// whole program or a fault, never a part of the program.
    pub fn load(lines: &Vec<String>) -> (res: Result<byte_code, LoadFault>)
        ensures
            match load_of(lines.deep_view()) {
                Ok(program) => res is Ok && res->Ok_0@ == program,
                Err(fault) => res == Err::<byte_code, LoadFault>(fault),
            },
    {
        let mut program = byte_code::new();
        let ghost source = lines.deep_view();
        let mut i: usize = 0;
        assert(source.take(0) =~= Seq::<Seq<char>>::empty());
        while i < lines.len()
            invariant
                i <= lines.len(),
                source == lines.deep_view(),
                assemble(source.take(i as int)) == Ok::<ProgramModel, LoadFault>(program@),
            decreases lines.len() - i,
        {
            let ghost before = program@;
            assert(source.take(i + 1).drop_last() =~= source.take(i as int));
            assert(source.take(i + 1).last() == lines[i as int]@);
            match byte_code::read_line(lines[i].as_str()) {
                Err(fault) => {
                    proof {
                        lemma_assemble_keeps_first_fault(source, i + 1);
                    }
                    return Err(LoadFault::Syntax { line: i + 1, fault });
                },
                Ok(Statement::Blank) => {},
                Ok(Statement::Emit(instruction)) => {
                    program.instruction_sets.push(instruction);
                    assert(program@.code =~= before.code.push(instruction@));
                },
                Ok(Statement::Label(name)) => {
                    let position = program.instruction_sets.len();
                    program.label_to_instruction.insert(name, position);
                },
            }
            i = i + 1;
        }
        assert(source.take(i as int) =~= source);
        assert(program@.code.len() == program.instruction_sets.len());
        match program.first_return() {
            None => Err(LoadFault::MissingReturn),
            Some(position) => if position + 1 == program.instruction_sets.len() {
                Ok(program)
            } else {
                Err(LoadFault::MisplacedReturn)
            },
        }
    }

    /// The number of instructions.
    pub fn len(&self) -> (n: usize)
        ensures
            n == self@.code.len(),
    {
        self.instruction_sets.len()
    }

    /// The instruction at `index`, if the program is that long.
    pub fn instruction(&self, index: usize) -> (res: Option<&Instruction>)
        ensures
            index < self@.code.len() ==> res is Some && res->Some_0@ == self@.code[index as int],
            index >= self@.code.len() ==> res is None,
            self@.code.len() <= usize::MAX,
    {
        if index < self.instruction_sets.len() {
            Some(&self.instruction_sets[index])
        } else {
            None
        }
    }

    /// The position that a label names, if the program defines the label.
    pub fn label(&self, name: &str) -> (res: Option<usize>)
        ensures
            res == (if self@.labels.contains_key(name@) {
                Some(self@.labels[name@])
            } else {
                None::<usize>
            }),
    {
        match self.label_to_instruction.get(name) {
            Some(position) => Some(*position),
            None => None,
        }
    }

    /// The index of the first return instruction.
    fn first_return(&self) -> (res: Option<usize>)
        ensures
            match res {
                Some(i) => i < self@.code.len() && self@.code[i as int] == Instr::Return
                    && forall|j: int| 0 <= j < i ==> #[trigger] self@.code[j] != Instr::Return,
                None => !has_return(self@.code),
            },
    {
        let mut i: usize = 0;
        while i < self.instruction_sets.len()
            invariant
                i <= self.instruction_sets.len(),
                forall|j: int| 0 <= j < i ==> #[trigger] self@.code[j] != Instr::Return,
            decreases self.instruction_sets.len() - i,
        {
            match &self.instruction_sets[i] {
                Instruction::Return => {
                    return Some(i);
                },
                _ => {},
            }
            i = i + 1;
        }
        None
    }
}

} // verus!
