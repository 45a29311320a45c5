//! The interpreter: what one instruction does to the machine, and the run
//! of a program from its first instruction to its result.

use vstd::prelude::*;
use vstd::hash_map::StringHashMap;
use crate::fault::{RunFault, RunFaultKind};
use crate::instruction::{Instr, Instruction};
use crate::program::{byte_code, ProgramModel};

verus! {

/// The machine as a mathematical value: the operand stack with its top at
/// the end, the variables that were written, and the index of the next
/// instruction.
pub struct MachineModel {
    pub stack: Seq<i32>,
    pub variables: Map<Seq<char>, i32>,
    pub counter: usize,
}

/// What one instruction leads to.
pub enum Progress {
    /// The run goes on from this machine.
    Continue(MachineModel),
    /// The run ends with this result.
    Finished(i32),
    /// The run ends with a fault.
    Faulted(RunFaultKind),
}

/// Whether a number fits in 32 bits.
pub open spec fn fits(value: int) -> bool {
    i32::MIN <= value <= i32::MAX
}

/// The distance of a number from zero.
pub open spec fn magnitude_of(value: int) -> int {
    if value < 0 {
        -value
    } else {
        value
    }
}

/// `y` divided by `x`, rounded towards zero: the magnitudes are divided,
/// and the result is negative where the signs of `y` and `x` differ.
pub open spec fn quotient(y: int, x: int) -> int {
    let q = magnitude_of(y) / magnitude_of(x);
    if (y < 0) != (x < 0) {
        -q
    } else {
        q
    }
}

/// What is left over when `y` is divided by `x` towards zero.
pub open spec fn remainder(y: int, x: int) -> int {
    y - quotient(y, x) * x
}

/// Division towards zero leaves a remainder that is nearer to zero than
/// the divisor and is zero or has the sign of the dividend. No other
/// quotient does.
pub proof fn law_quotient_rounds_towards_zero(y: int, x: int)
    requires
        x != 0,
    ensures
        magnitude_of(remainder(y, x)) < magnitude_of(x),
        remainder(y, x) == 0 || (remainder(y, x) < 0) == (y < 0),
{
    let a = magnitude_of(y);
    let d = magnitude_of(x);
    let q = a / d;
    vstd::arithmetic::div_mod::lemma_fundamental_div_mod(a, d);
    vstd::arithmetic::div_mod::lemma_mod_bound(a, d);
    assert(a == d * q + a % d);
    assert(remainder(y, x) == if y < 0 {
        -(a % d)
    } else {
        a % d
    }) by (nonlinear_arith)
        requires
            a == d * q + a % d,
            a == magnitude_of(y),
            d == magnitude_of(x),
            x != 0,
            remainder(y, x) == y - (if (y < 0) != (x < 0) {
                -q
            } else {
                q
            }) * x,
    ;
}

impl MachineModel {
    /// The machine before the first instruction.
    pub open spec fn start() -> MachineModel {
        MachineModel { stack: Seq::empty(), variables: Map::empty(), counter: 0 }
    }

    /// The operand on top of the stack.
    pub open spec fn top(self) -> i32 {
        self.stack[self.stack.len() - 1]
    }

    /// The operand below the top of the stack.
    pub open spec fn second(self) -> i32 {
        self.stack[self.stack.len() - 2]
    }

    /// The index of the instruction after the current one.
    pub open spec fn following(self) -> usize {
        (self.counter + 1) as usize
    }

    /// The machine after `taken` operands were popped and the next
    /// instruction was chosen.
    pub open spec fn popped(self, taken: int, counter: usize) -> MachineModel {
        MachineModel {
            stack: self.stack.take(self.stack.len() - taken),
            variables: self.variables,
            counter,
        }
    }

    /// An arithmetic instruction that popped `taken` operands and computed
    /// `value`: the value is pushed where it fits in 32 bits.
    pub open spec fn computed(self, taken: int, value: int) -> Progress {
        if fits(value) {
            let rest = self.popped(taken, self.following());
            Progress::Continue(
                MachineModel {
                    stack: rest.stack.push(value as i32),
                    variables: rest.variables,
                    counter: rest.counter,
                },
            )
        } else {
            Progress::Faulted(RunFaultKind::Overflow)
        }
    }
}

/// What the instruction `instr` does to the machine `m` in `program`.
pub open spec fn effect(program: ProgramModel, m: MachineModel, instr: Instr) -> Progress {
    let depth = m.stack.len();
    match instr {
        Instr::LoadValue(value) => Progress::Continue(
            MachineModel {
                stack: m.stack.push(value),
                variables: m.variables,
                counter: m.following(),
            },
        ),
        Instr::WriteVar(name) => if depth < 1 {
            Progress::Faulted(RunFaultKind::StackUnderflow)
        } else {
            Progress::Continue(
                MachineModel {
                    stack: m.stack.take(depth - 1),
                    variables: m.variables.insert(name, m.top()),
                    counter: m.following(),
                },
            )
        },
        Instr::ReadVar(name) => if !m.variables.contains_key(name) {
            Progress::Faulted(RunFaultKind::UnboundVariable)
        } else {
            Progress::Continue(
                MachineModel {
                    stack: m.stack.push(m.variables[name]),
                    variables: m.variables,
                    counter: m.following(),
                },
            )
        },
        Instr::Compare(operand) => if depth < 1 {
            Progress::Faulted(RunFaultKind::StackUnderflow)
        } else {
            m.computed(1, m.top() - operand)
        },
        Instr::Add => if depth < 2 {
            Progress::Faulted(RunFaultKind::StackUnderflow)
        } else {
            m.computed(2, m.top() + m.second())
        },
        Instr::Subtract => if depth < 2 {
            Progress::Faulted(RunFaultKind::StackUnderflow)
        } else {
            m.computed(2, m.second() - m.top())
        },
        Instr::Multiply => if depth < 2 {
            Progress::Faulted(RunFaultKind::StackUnderflow)
        } else {
            m.computed(2, m.top() * m.second())
        },
        Instr::Divide => if depth < 1 {
            Progress::Faulted(RunFaultKind::StackUnderflow)
        } else if m.top() == 0 {
            Progress::Faulted(RunFaultKind::DivideByZero)
        } else if depth < 2 {
            Progress::Faulted(RunFaultKind::StackUnderflow)
        } else {
            m.computed(2, quotient(m.second() as int, m.top() as int))
        },
        Instr::Jump(label) => if !program.labels.contains_key(label) {
            Progress::Faulted(RunFaultKind::UnknownLabel)
        } else {
            Progress::Continue(
                MachineModel {
                    stack: m.stack,
                    variables: m.variables,
                    counter: program.labels[label],
                },
            )
        },
        Instr::JumpIfNegative(label) => if depth < 1 {
            Progress::Faulted(RunFaultKind::StackUnderflow)
        } else if m.top() >= 0 {
            Progress::Continue(m.popped(1, m.following()))
        } else if !program.labels.contains_key(label) {
            Progress::Faulted(RunFaultKind::UnknownLabel)
        } else {
            Progress::Continue(m.popped(1, program.labels[label]))
        },
        Instr::Return => if depth < 1 {
            Progress::Faulted(RunFaultKind::StackUnderflow)
        } else {
            Progress::Finished(m.top())
        },
    }
}

/// One cycle: the instruction at the counter is fetched and carried out.
/// A counter outside the program is a fault.
pub open spec fn step_of(program: ProgramModel, m: MachineModel) -> Progress {
    if m.counter >= program.code.len() {
        Progress::Faulted(RunFaultKind::RanOffEnd)
    } else {
        effect(program, m, program.code[m.counter as int])
    }
}

/// The outcome of at most `steps` cycles from the machine `m`: the result
/// of the return instruction, or the first fault with the index of the
/// instruction it occurred at, or `StepLimit` with the index of the
/// instruction that would have come next.
pub open spec fn run(program: ProgramModel, m: MachineModel, steps: nat) -> Result<i32, RunFault>
    decreases steps,
{
    if steps == 0 {
        Err(RunFault { at: m.counter, kind: RunFaultKind::StepLimit })
    } else {
        match step_of(program, m) {
            Progress::Continue(next) => run(program, next, (steps - 1) as nat),
            Progress::Finished(value) => Ok(value),
            Progress::Faulted(kind) => Err(RunFault { at: m.counter, kind }),
        }
    }
}

/// A run that ended within `steps` cycles ends in the same way when it is
/// allowed more.
pub proof fn lemma_run_is_stable(program: ProgramModel, m: MachineModel, steps: nat, more: nat)
    requires
        !(run(program, m, steps) matches Err(fault) && fault.kind == RunFaultKind::StepLimit),
    ensures
        run(program, m, steps + more) == run(program, m, steps),
    decreases steps,
{
    if steps > 0 {
        match step_of(program, m) {
            Progress::Continue(next) => {
                lemma_run_is_stable(program, next, (steps - 1) as nat, more);
                assert(run(program, m, steps + more) == run(
                    program,
                    next,
                    (steps + more - 1) as nat,
                ));
            },
            _ => {},
        }
    }
}

/// The state of one run: operand stack, variables and program counter.
pub struct ExecutionState {
    stack: Vec<i32>,
    variables: StringHashMap<i32>,
    counter: usize,
}

impl View for ExecutionState {
    type V = MachineModel;

    closed spec fn view(&self) -> MachineModel {
        MachineModel { stack: self.stack@, variables: self.variables@, counter: self.counter }
    }
}

/// What one cycle of the machine led to.
pub enum Step {
    /// The run goes on from this state.
    Continue(ExecutionState),
    /// The run ended with this result.
    Finished(i32),
    /// The run ended with this fault.
    Faulted(RunFault),
}

impl Step {
    /// Whether this is what `progress` describes, for an instruction at
    /// index `at`.
    pub open spec fn agrees_with(self, progress: Progress, at: usize) -> bool {
        match progress {
            Progress::Continue(m) => self matches Step::Continue(state) && state@ == m,
            Progress::Finished(value) => self matches Step::Finished(v) && v == value,
            Progress::Faulted(kind) => self matches Step::Faulted(fault) && fault == (RunFault {
                at,
                kind,
            }),
        }
    }
}

impl ExecutionState {
    /// The state before the first instruction: nothing on the stack, no
    /// variable written, the counter at zero.
    pub fn new() -> (state: ExecutionState)
        ensures
            state@ == MachineModel::start(),
    {
        ExecutionState { stack: Vec::new(), variables: StringHashMap::new(), counter: 0 }
    }

    /// The index of the next instruction.
    pub fn counter(&self) -> (at: usize)
        ensures
            at == self@.counter,
    {
        self.counter
    }

    /// The number of operands on the stack.
    pub fn depth(&self) -> (n: usize)
        ensures
            n == self@.stack.len(),
    {
        self.stack.len()
    }

    /// The end of an arithmetic instruction that popped its operands and
    /// computed `value`, or found that the result does not fit.
    fn settle(self, at: usize, next: usize, value: Option<i32>) -> (res: Step)
        ensures
            match value {
                Some(v) => res matches Step::Continue(state) && state@ == (MachineModel {
                    stack: self@.stack.push(v),
                    variables: self@.variables,
                    counter: next,
                }),
                None => res matches Step::Faulted(fault) && fault == (RunFault {
                    at,
                    kind: RunFaultKind::Overflow,
                }),
            },
    {
        match value {
            Some(v) => {
                let ExecutionState { mut stack, variables, counter: _ } = self;
                stack.push(v);
                Step::Continue(ExecutionState { stack, variables, counter: next })
            },
            None => Step::Faulted(RunFault { at, kind: RunFaultKind::Overflow }),
        }
    }
}

impl byte_code {
    /// Carries out the instruction at the counter of `state`.
    pub fn step(&self, state: ExecutionState) -> (res: Step)
        ensures
            res.agrees_with(step_of(self@, state@), state@.counter),
    {
        let ghost m = state@;
        let ExecutionState { mut stack, mut variables, counter } = state;
        let at = counter;
        let instruction = match self.instruction(at) {
            None => {
                return Step::Faulted(RunFault { at, kind: RunFaultKind::RanOffEnd });
            },
            Some(instruction) => instruction,
        };
        let next = at + 1;
        let underflow = RunFault { at, kind: RunFaultKind::StackUnderflow };
        match instruction {
            Instruction::LoadValue(value) => {
                stack.push(*value);
                Step::Continue(ExecutionState { stack, variables, counter: next })
            },
            Instruction::WriteVar(name) => {
                match stack.pop() {
                    None => Step::Faulted(underflow),
                    Some(value) => {
                        variables.insert(name.clone(), value);
                        Step::Continue(ExecutionState { stack, variables, counter: next })
                    },
                }
            },
            Instruction::ReadVar(name) => {
                let value = match variables.get(name.as_str()) {
                    None => {
                        return Step::Faulted(
                            RunFault { at, kind: RunFaultKind::UnboundVariable },
                        );
                    },
                    Some(value) => *value,
                };
                stack.push(value);
                Step::Continue(ExecutionState { stack, variables, counter: next })
            },
            Instruction::Compare(operand) => {
                match stack.pop() {
                    None => Step::Faulted(underflow),
                    Some(x) => {
                        let rest = ExecutionState { stack, variables, counter };
                        rest.settle(at, next, x.checked_sub(*operand))
                    },
                }
            },
            Instruction::Add => {
                let x = match stack.pop() {
                    None => {
                        return Step::Faulted(underflow);
                    },
                    Some(x) => x,
                };
                let y = match stack.pop() {
                    None => {
                        return Step::Faulted(underflow);
                    },
                    Some(y) => y,
                };
                assert(stack@ =~= m.stack.take(m.stack.len() - 2));
                let rest = ExecutionState { stack, variables, counter };
                rest.settle(at, next, x.checked_add(y))
            },
            Instruction::Subtract => {
                let x = match stack.pop() {
                    None => {
                        return Step::Faulted(underflow);
                    },
                    Some(x) => x,
                };
                let y = match stack.pop() {
                    None => {
                        return Step::Faulted(underflow);
                    },
                    Some(y) => y,
                };
                assert(stack@ =~= m.stack.take(m.stack.len() - 2));
                let rest = ExecutionState { stack, variables, counter };
                rest.settle(at, next, y.checked_sub(x))
            },
            Instruction::Multiply => {
                let x = match stack.pop() {
                    None => {
                        return Step::Faulted(underflow);
                    },
                    Some(x) => x,
                };
                let y = match stack.pop() {
                    None => {
                        return Step::Faulted(underflow);
                    },
                    Some(y) => y,
                };
                assert(stack@ =~= m.stack.take(m.stack.len() - 2));
                let rest = ExecutionState { stack, variables, counter };
                rest.settle(at, next, x.checked_mul(y))
            },
            Instruction::Divide => {
                let x = match stack.pop() {
                    None => {
                        return Step::Faulted(underflow);
                    },
                    Some(x) => x,
                };
                if x == 0 {
                    return Step::Faulted(RunFault { at, kind: RunFaultKind::DivideByZero });
                }
                let y = match stack.pop() {
                    None => {
                        return Step::Faulted(underflow);
                    },
                    Some(y) => y,
                };
                assert(stack@ =~= m.stack.take(m.stack.len() - 2));
                let rest = ExecutionState { stack, variables, counter };
                rest.settle(at, next, y.checked_div(x))
            },
            Instruction::Jump(label) => {
                match self.label(label.as_str()) {
                    None => Step::Faulted(RunFault { at, kind: RunFaultKind::UnknownLabel }),
                    Some(target) => Step::Continue(
                        ExecutionState { stack, variables, counter: target },
                    ),
                }
            },
            Instruction::JumpIfNegative(label) => {
                let x = match stack.pop() {
                    None => {
                        return Step::Faulted(underflow);
                    },
                    Some(x) => x,
                };
                if x < 0 {
                    match self.label(label.as_str()) {
                        None => Step::Faulted(RunFault { at, kind: RunFaultKind::UnknownLabel }),
                        Some(target) => Step::Continue(
                            ExecutionState { stack, variables, counter: target },
                        ),
                    }
                } else {
                    Step::Continue(ExecutionState { stack, variables, counter: next })
                }
            },
            Instruction::Return => {
                match stack.pop() {
                    None => Step::Faulted(underflow),
                    Some(value) => Step::Finished(value),
                }
            },
        }
    }

    /// Runs the program for at most `limit` cycles.
    pub fn execute_bounded(&self, limit: u64) -> (res: Result<i32, RunFault>)
        ensures
            res == run(self@, MachineModel::start(), limit as nat),
    {
        let mut state = ExecutionState::new();
        let mut left = limit;
        while left > 0
            invariant
                run(self@, MachineModel::start(), limit as nat) == run(self@, state@, left as nat),
            decreases left,
        {
            match self.step(state) {
                Step::Continue(next) => {
                    state = next;
                },
                Step::Finished(value) => {
                    return Ok(value);
                },
                Step::Faulted(fault) => {
                    return Err(fault);
                },
            }
            left = left - 1;
        }
        Err(RunFault { at: state.counter, kind: RunFaultKind::StepLimit })
    }

    /// Runs the program to its result. A run that is still going after
    /// `u64::MAX` cycles is cut off with `StepLimit`.
    pub fn execute(&self) -> (res: Result<i32, RunFault>)
        ensures
            res == run(self@, MachineModel::start(), u64::MAX as nat),
    {
        self.execute_bounded(u64::MAX)
    }
}

} // verus!
