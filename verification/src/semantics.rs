use vstd::prelude::*;

use crate::instruction::{mode_of, Argument, InstructionModel, ParameterMode};
use crate::operation::{arg_count, operation_of, Operation};
use crate::pipe::ChannelModel;

verus! {

/// Every way a run can end other than a normal halt. All of these are fatal:
/// the machine has no recoverable-error tier.
#[derive(Debug, Clone, Copy, PartialEq, Eq, Structural)]
pub enum ExecError {
    /// The decoded opcode has no entry in the operation table.
    InvalidOpcode,
    /// An addressing-mode digit outside {0, 1}.
    InvalidParameterMode,
    /// A computed address (read, write, jump target or program-counter
    /// advance) outside the memory's valid index range.
    OutOfBounds,
    /// A Read instruction executed with no input channel bound.
    NoInputPipe,
    /// A Write instruction executed with no output channel bound.
    NoOutputPipe,
    /// A Read instruction executed with no unconsumed input available.
    InputExhausted,
    /// An Add or Multiply result outside the signed 64-bit range.
    Overflow,
    /// The engine's cycle budget ran out: the program executed 2^64 - 1
    /// cycles without halting or failing. The budget exists so that the run
    /// loop provably terminates; no feasible program reaches it.
    CycleLimit,
}

/// The complete state of one execution: the memory image, the program
/// counter, and the channels bound to the engine, if any.
#[verifier::ext_equal]
pub struct State {
    pub mem: Seq<i64>,
    pub pc: nat,
    pub input: Option<ChannelModel>,
    pub output: Option<ChannelModel>,
}

/// The outcome of executing one instruction: the next state, a normal halt
/// (which changes nothing), or a fatal error (detected before any effect of
/// the failing instruction is applied).
#[verifier::ext_equal]
pub enum StepResult {
    Next(State),
    Halted,
    Fail(ExecError),
}

/// The instruction word with the opcode digits and `i` mode digits removed:
/// the mode digit of argument `i` is its last decimal digit.
pub open spec fn digits_shifted(w: int, i: nat) -> int
    decreases i,
{
    if i == 0 {
        w / 100
    } else {
        digits_shifted(w, (i - 1) as nat) / 10
    }
}

/// The addressing-mode digit of argument `i` within instruction word `w`.
pub open spec fn mode_digit(w: int, i: nat) -> int {
    digits_shifted(w, i) % 10
}

/// Decodes the instruction at address `pc`: the word's two low decimal digits
/// select the operation, the remaining digits give one addressing mode per
/// argument (least significant first), and the argument values are the words
/// at `pc + 1 .. pc + argument count`. Decoding is a pure projection of the
/// memory; it mutates nothing.
pub open spec fn decode(mem: Seq<i64>, pc: int) -> Result<InstructionModel, ExecError> {
    if pc < 0 || pc >= mem.len() {
        Err(ExecError::OutOfBounds)
    } else if mem[pc] < 0 {
        Err(ExecError::InvalidOpcode)
    } else {
        let w = mem[pc] as int;
        match operation_of(w % 100) {
            None => Err(ExecError::InvalidOpcode),
            Some(op) => {
                let n = arg_count(op) as int;
                if pc + n >= mem.len() {
                    Err(ExecError::OutOfBounds)
                } else if exists|i: int|
                    0 <= i < n && mode_of(#[trigger] mode_digit(w, i as nat)) is None {
                    Err(ExecError::InvalidParameterMode)
                } else {
                    Ok(InstructionModel {
                        operation: op,
                        arguments: Seq::new(
                            n as nat,
                            |i: int| Argument {
                                value: mem[pc + 1 + i],
                                parameter_mode: mode_of(mode_digit(w, i as nat))->0,
                            },
                        ),
                    })
                }
            },
        }
    }
}

/// Resolves a value argument through its addressing mode: Position reads
/// memory at the raw value, Immediate is the raw value itself.
pub open spec fn resolve_value(mem: Seq<i64>, a: Argument) -> Result<i64, ExecError> {
    match a.parameter_mode {
        ParameterMode::Immediate => Ok(a.value),
        ParameterMode::Position => {
            if 0 <= a.value < mem.len() {
                Ok(mem[a.value as int])
            } else {
                Err(ExecError::OutOfBounds)
            }
        },
    }
}

/// Resolves a destination argument: its raw value is the target address and
/// its mode is not consulted.
pub open spec fn resolve_dest(mem: Seq<i64>, a: Argument) -> Result<int, ExecError> {
    if 0 <= a.value < mem.len() {
        Ok(a.value as int)
    } else {
        Err(ExecError::OutOfBounds)
    }
}

/// The program counter an instruction with `n` arguments advances to when it
/// does not jump.
pub open spec fn advanced_pc(pc: nat, n: nat) -> nat {
    pc + n + 1
}

/// One Add or Multiply: writes the sum or product of the two value arguments
/// at the destination, then advances. A result outside the 64-bit range, or
/// an advance that leaves memory, fails with nothing written.
pub open spec fn step_arith(s: State, ins: InstructionModel, is_add: bool) -> StepResult {
    match resolve_value(s.mem, ins.arguments[0]) {
        Err(e) => StepResult::Fail(e),
        Ok(v0) => match resolve_value(s.mem, ins.arguments[1]) {
            Err(e) => StepResult::Fail(e),
            Ok(v1) => match resolve_dest(s.mem, ins.arguments[2]) {
                Err(e) => StepResult::Fail(e),
                Ok(d) => {
                    let v = if is_add {
                        v0 + v1
                    } else {
                        v0 * v1
                    };
                    if v < i64::MIN || v > i64::MAX {
                        StepResult::Fail(ExecError::Overflow)
                    } else if advanced_pc(s.pc, 3) >= s.mem.len() {
                        StepResult::Fail(ExecError::OutOfBounds)
                    } else {
                        StepResult::Next(
                            State { mem: s.mem.update(d, v as i64), pc: advanced_pc(s.pc, 3), ..s },
                        )
                    }
                },
            },
        },
    }
}

/// One Read: consumes the next unconsumed input value and writes it at the
/// destination, then advances. Fails if no input channel is bound or the
/// channel is exhausted.
pub open spec fn step_read(s: State, ins: InstructionModel) -> StepResult {
    match resolve_dest(s.mem, ins.arguments[0]) {
        Err(e) => StepResult::Fail(e),
        Ok(d) => match s.input {
            None => StepResult::Fail(ExecError::NoInputPipe),
            Some(ch) => {
                if ch.read_pos >= ch.data.len() {
                    StepResult::Fail(ExecError::InputExhausted)
                } else if advanced_pc(s.pc, 1) >= s.mem.len() {
                    StepResult::Fail(ExecError::OutOfBounds)
                } else {
                    StepResult::Next(
                        State {
                            mem: s.mem.update(d, ch.data[ch.read_pos as int]),
                            pc: advanced_pc(s.pc, 1),
                            input: Some(
                                ChannelModel { data: ch.data, read_pos: ch.read_pos + 1 },
                            ),
                            output: s.output,
                        },
                    )
                }
            },
        },
    }
}

/// One Write: appends the resolved value argument at the tail of the output
/// channel, then advances. Fails if no output channel is bound.
pub open spec fn step_write(s: State, ins: InstructionModel) -> StepResult {
    match resolve_value(s.mem, ins.arguments[0]) {
        Err(e) => StepResult::Fail(e),
        Ok(v) => match s.output {
            None => StepResult::Fail(ExecError::NoOutputPipe),
            Some(ch) => {
                if advanced_pc(s.pc, 1) >= s.mem.len() {
                    StepResult::Fail(ExecError::OutOfBounds)
                } else {
                    StepResult::Next(
                        State {
                            mem: s.mem,
                            pc: advanced_pc(s.pc, 1),
                            input: s.input,
                            output: Some(
                                ChannelModel { data: ch.data.push(v), read_pos: ch.read_pos },
                            ),
                        },
                    )
                }
            },
        },
    }
}

/// One JumpIfTrue or JumpIfFalse: when the condition holds, the program
/// counter is set to the second value argument and the default advance is
/// suppressed for this cycle; otherwise the instruction only advances. A
/// taken jump whose target lies outside memory fails at once, before the
/// program counter moves.
pub open spec fn step_jump(s: State, ins: InstructionModel, on_nonzero: bool) -> StepResult {
    match resolve_value(s.mem, ins.arguments[0]) {
        Err(e) => StepResult::Fail(e),
        Ok(v0) => match resolve_value(s.mem, ins.arguments[1]) {
            Err(e) => StepResult::Fail(e),
            Ok(t) => {
                let taken = if on_nonzero {
                    v0 != 0
                } else {
                    v0 == 0
                };
                if taken {
                    if 0 <= t < s.mem.len() {
                        StepResult::Next(State { pc: t as nat, ..s })
                    } else {
                        StepResult::Fail(ExecError::OutOfBounds)
                    }
                } else {
                    if advanced_pc(s.pc, 2) >= s.mem.len() {
                        StepResult::Fail(ExecError::OutOfBounds)
                    } else {
                        StepResult::Next(State { pc: advanced_pc(s.pc, 2), ..s })
                    }
                }
            },
        },
    }
}

/// One LessThan or Equals: writes 1 at the destination when the comparison
/// holds and 0 when it does not, then advances.
pub open spec fn step_cmp(s: State, ins: InstructionModel, is_less_than: bool) -> StepResult {
    match resolve_value(s.mem, ins.arguments[0]) {
        Err(e) => StepResult::Fail(e),
        Ok(v0) => match resolve_value(s.mem, ins.arguments[1]) {
            Err(e) => StepResult::Fail(e),
            Ok(v1) => match resolve_dest(s.mem, ins.arguments[2]) {
                Err(e) => StepResult::Fail(e),
                Ok(d) => {
                    let holds = if is_less_than {
                        v0 < v1
                    } else {
                        v0 == v1
                    };
                    let v: i64 = if holds {
                        1
                    } else {
                        0
                    };
                    if advanced_pc(s.pc, 3) >= s.mem.len() {
                        StepResult::Fail(ExecError::OutOfBounds)
                    } else {
                        StepResult::Next(
                            State { mem: s.mem.update(d, v), pc: advanced_pc(s.pc, 3), ..s },
                        )
                    }
                },
            },
        },
    }
}

/// Dispatches one decoded instruction.
pub open spec fn step_decoded(s: State, ins: InstructionModel) -> StepResult {
    match ins.operation {
        Operation::Add => step_arith(s, ins, true),
        Operation::Multiply => step_arith(s, ins, false),
        Operation::Read => step_read(s, ins),
        Operation::Write => step_write(s, ins),
        Operation::JumpIfTrue => step_jump(s, ins, true),
        Operation::JumpIfFalse => step_jump(s, ins, false),
        Operation::LessThan => step_cmp(s, ins, true),
        Operation::Equals => step_cmp(s, ins, false),
        Operation::Halt => StepResult::Halted,
    }
}

/// One full cycle of the machine: decode at the program counter, then
/// execute. A decode failure is fatal with no partial effect.
pub open spec fn step(s: State) -> StepResult {
    match decode(s.mem, s.pc as int) {
        Err(e) => StepResult::Fail(e),
        Ok(ins) => step_decoded(s, ins),
    }
}

/// The state after `n` successful steps from `s0`, or `None` if some step
/// among them halted or failed.
pub open spec fn reach(s0: State, n: nat) -> Option<State>
    decreases n,
{
    if n == 0 {
        Some(s0)
    } else {
        match reach(s0, (n - 1) as nat) {
            Some(s) => match step(s) {
                StepResult::Next(s2) => Some(s2),
                _ => None,
            },
            None => None,
        }
    }
}

/// Runs compose: `a + b` steps from `s0` are `a` steps, then `b` more from
/// wherever those led.
pub proof fn lemma_reach_add(s0: State, a: nat, b: nat)
    ensures
        reach(s0, a + b) == (match reach(s0, a) {
            Some(s) => reach(s, b),
            None => None,
        }),
    decreases b,
{
    if b == 0 {
        assert(a + b == a);
    } else {
        lemma_reach_add(s0, a, (b - 1) as nat);
        assert(a + b == (a + (b - 1) as nat) + 1);
    }
}

/// From a state whose next step is not `Next`, no positive number of steps
/// reaches anything.
pub proof fn lemma_stuck(s: State, n: nat)
    requires
        !(step(s) is Next),
        n >= 1,
    ensures
        reach(s, n) is None,
    decreases n,
{
    if n == 1 {
        assert(reach(s, 0) == Some(s));
    } else {
        lemma_stuck(s, (n - 1) as nat);
        assert(reach(s, (n - 1) as nat) is None);
    }
}

/// The machine is deterministic: a run from `s0` ends at most one way. If
/// two step counts both lead to states that halt or fail, they are the same
/// count and the same state.
pub proof fn lemma_outcome_unique(s0: State, n1: nat, n2: nat, s1: State, s2: State)
    requires
        reach(s0, n1) == Some(s1),
        reach(s0, n2) == Some(s2),
        !(step(s1) is Next),
        !(step(s2) is Next),
    ensures
        n1 == n2,
        s1 == s2,
{
    if n1 < n2 {
        lemma_reach_add(s0, n1, (n2 - n1) as nat);
        lemma_stuck(s1, (n2 - n1) as nat);
    } else if n2 < n1 {
        lemma_reach_add(s0, n2, (n1 - n2) as nat);
        lemma_stuck(s2, (n1 - n2) as nat);
    }
}

} // verus!
