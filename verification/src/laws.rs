//! What holds of every text that is loaded.

use vstd::prelude::*;
use crate::fault::{LoadFault, SyntaxFault};
use crate::instruction::{line_of, opcode_of, Instr, Line};
use crate::program::{
    assemble, ends_with_sole_return, has_return, lemma_assemble_keeps_first_fault, load_of,
    ProgramModel,
};
use crate::text::tokens_of;

verus! {

/// The lines assemble exactly when each of them is well formed.
pub proof fn lemma_assemble_succeeds_iff_lines_do(lines: Seq<Seq<char>>)
    ensures
        assemble(lines) is Ok <==> forall|j: int|
            0 <= j < lines.len() ==> line_of(#[trigger] lines[j]) is Ok,
    decreases lines.len(),
{
    if lines.len() > 0 {
        let front = lines.drop_last();
        lemma_assemble_succeeds_iff_lines_do(front);
        if assemble(lines) is Ok {
            assert forall|j: int| 0 <= j < lines.len() implies line_of(#[trigger] lines[j]) is Ok by {
                if j < front.len() {
                    assert(lines[j] == front[j]);
                }
            }
        }
        if forall|j: int| 0 <= j < lines.len() ==> line_of(#[trigger] lines[j]) is Ok {
            assert forall|j: int| 0 <= j < front.len() implies line_of(#[trigger] front[j]) is Ok by {
                assert(front[j] == lines[j]);
            }
            assert(line_of(lines.last()) is Ok);
        }
    }
}

/// The first malformed line decides the outcome: where line `i` is
/// malformed and every line before it is well formed, loading fails with
/// the fault of line `i`, numbered from one.
pub proof fn lemma_first_malformed_line_decides(lines: Seq<Seq<char>>, i: int)
    requires
        0 <= i < lines.len(),
        line_of(lines[i]) is Err,
        forall|j: int| 0 <= j < i ==> line_of(#[trigger] lines[j]) is Ok,
    ensures
        load_of(lines) == Err::<ProgramModel, LoadFault>(
            LoadFault::Syntax { line: (i + 1) as usize, fault: line_of(lines[i])->Err_0 },
        ),
{
    let front = lines.take(i);
    assert forall|j: int| 0 <= j < front.len() implies line_of(#[trigger] front[j]) is Ok by {
        assert(front[j] == lines[j]);
    }
    lemma_assemble_succeeds_iff_lines_do(front);
    assert(lines.take(i + 1).drop_last() =~= front);
    assert(lines.take(i + 1).last() == lines[i]);
    lemma_assemble_keeps_first_fault(lines, i + 1);
}

/// A line that starts with a token outside the opcode set makes loading
/// fail, whatever the token is and wherever the line stands. Where the
/// lines before it are well formed, the fault is `UnknownOpcode` at that
/// line.
pub proof fn law_unknown_opcode_is_rejected(lines: Seq<Seq<char>>, i: int)
    requires
        0 <= i < lines.len(),
        tokens_of(lines[i]).len() > 0,
        opcode_of(tokens_of(lines[i])[0]) is None,
    ensures
        load_of(lines) is Err,
        (forall|j: int| 0 <= j < i ==> line_of(#[trigger] lines[j]) is Ok) ==> load_of(lines)
            == Err::<ProgramModel, LoadFault>(
            LoadFault::Syntax { line: (i + 1) as usize, fault: SyntaxFault::UnknownOpcode },
        ),
{
    assert(line_of(lines[i]) == Err::<Line, SyntaxFault>(SyntaxFault::UnknownOpcode));
    lemma_assemble_succeeds_iff_lines_do(lines);
    if forall|j: int| 0 <= j < i ==> line_of(#[trigger] lines[j]) is Ok {
        lemma_first_malformed_line_decides(lines, i);
    }
}

/// A text loads only if its code ends with its only return instruction:
/// a loaded program holds exactly one, in the last place.
pub proof fn law_loaded_program_ends_with_sole_return(lines: Seq<Seq<char>>)
    ensures
        load_of(lines) matches Ok(program) ==> assemble(lines) == Ok::<ProgramModel, LoadFault>(
            program,
        ) && ends_with_sole_return(program.code),
{
}

/// Of a text whose lines are all well formed: without a return
/// instruction, with two of them, or with one that is not the last
/// instruction, loading fails; with a return instruction as the last
/// instruction and nowhere else, loading gives the assembled program.
pub proof fn law_return_placement_decides_loading(lines: Seq<Seq<char>>)
    requires
        assemble(lines) is Ok,
    ensures
        ({
            let program = assemble(lines)->Ok_0;
            let code = program.code;
            &&& !has_return(code) ==> load_of(lines) == Err::<ProgramModel, LoadFault>(
                LoadFault::MissingReturn,
            )
            &&& (exists|i: int, j: int|
                0 <= i < j < code.len() && #[trigger] code[i] == Instr::Return
                    && #[trigger] code[j] == Instr::Return) ==> load_of(lines) == Err::<
                ProgramModel,
                LoadFault,
            >(LoadFault::MisplacedReturn)
            &&& has_return(code) && code.last() != Instr::Return ==> load_of(lines) == Err::<
                ProgramModel,
                LoadFault,
            >(LoadFault::MisplacedReturn)
            &&& ends_with_sole_return(code) ==> load_of(lines) == Ok::<ProgramModel, LoadFault>(
                program,
            )
        }),
{
    let code = assemble(lines)->Ok_0.code;
    if ends_with_sole_return(code) {
        assert(code[code.len() - 1] == Instr::Return);
    }
}

/// The text that holds a return instruction and nothing else loads, and
/// the program is that one instruction.
pub proof fn law_lone_return_loads(line: Seq<char>)
    requires
        line_of(line) == Ok::<Line, SyntaxFault>(Line::Emit(Instr::Return)),
    ensures
        load_of(seq![line]) == Ok::<ProgramModel, LoadFault>(
            ProgramModel { code: seq![Instr::Return], labels: Map::empty() },
        ),
{
    let lines = seq![line];
    assert(lines.drop_last() =~= Seq::<Seq<char>>::empty());
    assert(assemble(lines.drop_last()) == Ok::<ProgramModel, LoadFault>(ProgramModel::empty()));
    let program = assemble(lines)->Ok_0;
    assert(program.code =~= seq![Instr::Return]);
    assert(program.code[0] == Instr::Return);
}

/// Every label of an assembled program names an instruction or the
/// position after the last one.
pub proof fn law_labels_stay_in_range(lines: Seq<Seq<char>>)
    requires
        lines.len() <= usize::MAX,
    ensures
        assemble(lines) matches Ok(program) ==> program.labels_in_range() && program.code.len()
            <= lines.len(),
    decreases lines.len(),
{
    if lines.len() > 0 {
        law_labels_stay_in_range(lines.drop_last());
    }
}

} // verus!
