use vstd::prelude::*;

use crate::instruction::{mode_of, Argument, Instruction, InstructionModel, ParameterMode};
use crate::operation::{arg_count, Operation};
use crate::pipe::{ChannelModel, Pipe};
use crate::program::IntCodeProgram;
use crate::semantics::{
    advanced_pc, decode, digits_shifted, mode_digit, reach, resolve_dest, resolve_value, step,
    ExecError, State, StepResult,
};

verus! {

/// One execution of a stored program: the memory image, the program counter,
/// and the channels bound to it. The engine owns its memory exclusively for
/// the duration of a run and owns the channels bound to it; callers take the
/// output channel back after the run to inspect what was written.
///
/// `execute` is proved to follow the small-step semantics `step` exactly: the
/// state it leaves behind is reachable from the initial state, and it is a
/// state on which `step` halts or fails with the returned error.
#[derive(Debug)]
pub struct IntCodeExecution {
    pub memory: Vec<i64>,
    instruction_pointer: usize,
    input_pipe: Option<Pipe>,
    output_pipe: Option<Pipe>,
}

impl View for IntCodeExecution {
    type V = State;

    closed spec fn view(&self) -> State {
        State {
            mem: self.memory@,
            pc: self.instruction_pointer as nat,
            input: (match self.input_pipe {
                Some(p) => Some(p@),
                None => None,
            }),
            output: (match self.output_pipe {
                Some(p) => Some(p@),
                None => None,
            }),
        }
    }
}

impl IntCodeExecution {
    /// A fresh execution in the initial state: the supplied program image as
    /// memory, the program counter at 0, and no channels bound.
    pub fn new(program: IntCodeProgram) -> (r: IntCodeExecution)
        ensures
            r@ == (State { mem: program.program@, pc: 0 as nat, input: None, output: None }),
    {
        IntCodeExecution {
            memory: program.program,
            instruction_pointer: 0,
            input_pipe: None,
            output_pipe: None,
        }
    }

    /// Binds `input_pipe` as the input channel. Binding happens before a run
    /// begins; the engine consumes from this channel on Read instructions.
    pub fn set_input_pipe(&mut self, input_pipe: Pipe)
        ensures
            final(self)@ == (State { input: Some(input_pipe@), ..old(self)@ }),
    {
        self.input_pipe = Some(input_pipe);
    }

    /// Binds `output_pipe` as the output channel; the engine appends to it on
    /// Write instructions.
    pub fn set_output_pipe(&mut self, output_pipe: Pipe)
        ensures
            final(self)@ == (State { output: Some(output_pipe@), ..old(self)@ }),
    {
        self.output_pipe = Some(output_pipe);
    }

    /// Unbinds and returns the output channel, so that a caller can read what
    /// the run wrote.
    pub fn take_output_pipe(&mut self) -> (r: Option<Pipe>)
        ensures
            final(self)@ == (State { output: None, ..old(self)@ }),
            (match r {
                Some(p) => old(self)@.output == Some(p@),
                None => old(self)@.output is None,
            }),
    {
        self.output_pipe.take()
    }

    /// Unbinds and returns the input channel, so that a caller can inspect
    /// what the run left unconsumed.
    pub fn take_input_pipe(&mut self) -> (r: Option<Pipe>)
        ensures
            final(self)@ == (State { input: None, ..old(self)@ }),
            (match r {
                Some(p) => old(self)@.input == Some(p@),
                None => old(self)@.input is None,
            }),
    {
        self.input_pipe.take()
    }

    /// The word at `address`.
    fn memread(&self, address: usize) -> (r: i64)
        requires
            address < self@.mem.len(),
        ensures
            r == self@.mem[address as int],
    {
        self.memory[address]
    }

    /// Overwrites the word at `address`; every other cell is unchanged.
    fn memwrite(&mut self, address: usize, value: i64)
        requires
            address < old(self)@.mem.len(),
        ensures
            final(self)@ == (State { mem: old(self)@.mem.update(address as int, value), ..old(self)@ }),
    {
        self.memory[address] = value;
    }

    /// The current program counter.
    fn get_instruction_pointer(&self) -> (r: usize)
        ensures
            r as nat == self@.pc,
    {
        self.instruction_pointer
    }

    /// Redirects the program counter.
    fn set_instruction_pointer(&mut self, value: usize)
        ensures
            final(self)@ == (State { pc: value as nat, ..old(self)@ }),
    {
        self.instruction_pointer = value;
    }

    /// Consumes the next unconsumed value from the input channel. Callers
    /// check that the channel is bound and readable first.
    fn read_input(&mut self) -> (r: i64)
        requires
            (match old(self)@.input {
                Some(ch) => ch.read_pos < ch.data.len(),
                None => false,
            }),
        ensures
            (match old(self)@.input {
                Some(ch) => r == ch.data[ch.read_pos as int] && final(self)@ == (State {
                    input: Some(ChannelModel { data: ch.data, read_pos: ch.read_pos + 1 }),
                    ..old(self)@
                }),
                None => false,
            }),
    {
        let mut pipe = self.input_pipe.take().unwrap();
        let val = pipe.read();
        self.input_pipe = Some(pipe);
        val
    }

    /// Appends `val` at the tail of the output channel. Callers check that
    /// the channel is bound first.
    fn write_output(&mut self, val: i64)
        requires
            old(self)@.output is Some,
        ensures
            (match old(self)@.output {
                Some(ch) => final(self)@ == (State {
                    output: Some(ChannelModel { data: ch.data.push(val), read_pos: ch.read_pos }),
                    ..old(self)@
                }),
                None => false,
            }),
    {
        let mut pipe = self.output_pipe.take().unwrap();
        pipe.write(val);
        self.output_pipe = Some(pipe);
    }

    /// Decodes the instruction at `address` against the opcode table, exactly
    /// as the `decode` semantics says: it fails on an address outside memory,
    /// an opcode outside the table, argument words that run past the end of
    /// memory, or a mode digit outside {0, 1}. Decoding mutates nothing.
    #[verifier::loop_isolation(false)]
    pub fn instruction_fetch_decode(&self, address: usize) -> (r: Result<Instruction, ExecError>)
        ensures
            (match r {
                Ok(ins) => decode(self@.mem, address as int) == Ok::<
                    InstructionModel,
                    ExecError,
                >(ins@),
                Err(e) => decode(self@.mem, address as int) == Err::<
                    InstructionModel,
                    ExecError,
                >(e),
            }),
    {
        let mem_len = self.memory.len();
        if address >= mem_len {
            return Err(ExecError::OutOfBounds);
        }
        let w = self.memread(address);
        if w < 0 {
            return Err(ExecError::InvalidOpcode);
        }
        let opcode = w % 100;
        let operation = match Operation::from_i64(opcode) {
            Some(op) => op,
            None => {
                return Err(ExecError::InvalidOpcode);
            },
        };
        let n = operation.argument_count();
        if (address as u128) + (n as u128) >= (mem_len as u128) {
            return Err(ExecError::OutOfBounds);
        }
        let mut cur = w / 100;
        let mut arguments: Vec<Argument> = Vec::new();
        let mut i: usize = 0;
        while i < n
            invariant
                i <= n,
                n == arg_count(operation),
                address < mem_len,
                address + n < mem_len,
                mem_len == self@.mem.len(),
                w == self@.mem[address as int],
                w >= 0,
                cur >= 0,
                cur == digits_shifted(w as int, i as nat),
                arguments@.len() == i,
                forall|j: int|
                    0 <= j < i ==> mode_of(
                        #[trigger] mode_digit(w as int, j as nat),
                    ) is Some,
                forall|j: int|
                    0 <= j < i ==> arguments@[j] == (Argument {
                        value: self@.mem[address + 1 + j],
                        parameter_mode: mode_of(
                            mode_digit(w as int, j as nat),
                        )->0,
                    }),
            decreases n - i,
        {
            let digit = cur % 10;
            let mode = match ParameterMode::from_i64(digit) {
                Some(m) => m,
                None => {
                    proof {
                        assert(mode_of(
                            mode_digit(w as int, i as nat),
                        ) is None);
                        assert(exists|j: int|
                            0 <= j < arg_count(operation) as int && mode_of(
                                #[trigger] mode_digit(w as int, j as nat),
                            ) is None) by {
                            let j: int = i as int;
                            assert(0 <= j < arg_count(operation) as int);
                            assert(mode_of(
                                mode_digit(w as int, j as nat),
                            ) is None);
                        };
                    }
                    return Err(ExecError::InvalidParameterMode);
                },
            };
            cur = cur / 10;
            let value = self.memread(address + 1 + i);
            arguments.push(Argument { value, parameter_mode: mode });
            i += 1;
        }
        let result = Instruction { operation, arguments };
        proof {
            let w_int = w as int;
            let spec_args = Seq::new(
                n as nat,
                |j: int| Argument {
                    value: self@.mem[address + 1 + j],
                    parameter_mode: mode_of(
                        mode_digit(w_int, j as nat),
                    )->0,
                },
            );
            assert(result@.arguments =~= spec_args);
            assert(decode(self@.mem, address as int) == Ok::<
                InstructionModel,
                ExecError,
            >(result@));
        }
        Ok(result)
    }

    /// Resolves a value argument through its addressing mode, exactly as the
    /// `resolve_value` semantics says.
    pub fn get_mode_argument(&self, instruction: &Instruction, argument_index: usize) -> (r: Result<
        i64,
        ExecError,
    >)
        requires
            argument_index < instruction@.arguments.len(),
        ensures
            r == resolve_value(self@.mem, instruction@.arguments[argument_index as int]),
    {
        let argument = &instruction.arguments[argument_index];
        match argument.parameter_mode {
            ParameterMode::Immediate => Ok(argument.value),
            ParameterMode::Position => {
                if argument.value < 0 {
                    return Err(ExecError::OutOfBounds);
                }
                if (argument.value as u128) >= (self.memory.len() as u128) {
                    return Err(ExecError::OutOfBounds);
                }
                Ok(self.memread(argument.value as usize))
            },
        }
    }

    /// Resolves a destination argument: its raw value is the target address,
    /// exactly as the `resolve_dest` semantics says.
    pub fn get_address_argument(&self, instruction: &Instruction, argument_index: usize) -> (r:
        Result<usize, ExecError>)
        requires
            argument_index < instruction@.arguments.len(),
        ensures
            (match r {
                Ok(d) => resolve_dest(self@.mem, instruction@.arguments[argument_index as int])
                    == Ok::<int, ExecError>(d as int),
                Err(e) => resolve_dest(self@.mem, instruction@.arguments[argument_index as int])
                    == Err::<int, ExecError>(e),
            }),
    {
        let argument = &instruction.arguments[argument_index];
        if argument.value < 0 {
            return Err(ExecError::OutOfBounds);
        }
        if (argument.value as u128) >= (self.memory.len() as u128) {
            return Err(ExecError::OutOfBounds);
        }
        Ok(argument.value as usize)
    }

    /// True iff the default program-counter advance past `instruction` stays
    /// inside memory.
    fn advance_in_bounds(&self, instruction: &Instruction) -> (r: bool)
        ensures
            r == (advanced_pc(self@.pc, arg_count(instruction@.operation)) < self@.mem.len()),
    {
        let n = instruction.operation.argument_count();
        (self.instruction_pointer as u128) + (n as u128) + 1 < (self.memory.len() as u128)
    }

    /// Applies the default advance: program counter plus argument count plus
    /// one. Used on every cycle whose instruction did not jump.
    fn advance_instruction_pointer(&mut self, instruction: &Instruction)
        requires
            advanced_pc(old(self)@.pc, arg_count(instruction@.operation)) < old(self)@.mem.len(),
        ensures
            final(self)@ == (State {
                pc: advanced_pc(old(self)@.pc, arg_count(instruction@.operation)),
                ..old(self)@
            }),
    {
        let n = instruction.operation.argument_count();
        let len = self.memory.len();
        proof {
            assert(self.instruction_pointer + n + 1 < len);
        }
        self.instruction_pointer = self.instruction_pointer + n + 1;
    }

    /// Runs the fetch-decode-execute loop until a Halt instruction or a fatal
    /// error. Fatal conditions abort at once with no partial effect from the
    /// failing instruction. A pathological program that never halts runs the
    /// cycle budget out and ends with `ExecError::CycleLimit`; the budget of
    /// 2^64 - 1 cycles is far beyond anything a real run performs.
    ///
    /// The contract ties the run to the small-step semantics: the state left
    /// behind is reachable from the starting state by some number of steps,
    /// and stepping it once gives exactly the returned outcome. Together with
    /// `lemma_outcome_unique` this pins the result of a run down completely.
    #[verifier::loop_isolation(false)]
    pub fn execute(&mut self) -> (r: Result<(), ExecError>)
        ensures
            (match r {
                Ok(_) => exists|n: nat|
                    #[trigger] reach(old(self)@, n) == Some(final(self)@) && step(final(self)@)
                        == StepResult::Halted,
                Err(e) => if e == ExecError::CycleLimit {
                    reach(old(self)@, u64::MAX as nat) == Some(final(self)@)
                } else {
                    exists|n: nat|
                        #[trigger] reach(old(self)@, n) == Some(final(self)@) && step(final(self)@)
                            == StepResult::Fail(e)
                },
            }),
    {
        let ghost s0 = self@;
        let ghost mut steps: nat = 0nat;
        let mut fuel: u64 = u64::MAX;
        loop
            invariant
                reach(s0, steps) == Some(self@),
                steps + fuel == u64::MAX as nat,
            decreases fuel,
        {
            if fuel == 0 {
                return Err(ExecError::CycleLimit);
            }
            fuel = fuel - 1;
            let ghost pre = self@;
            let instruction_pointer = self.get_instruction_pointer();
            let instruction = match self.instruction_fetch_decode(instruction_pointer) {
                Ok(ins) => ins,
                Err(e) => {
                    proof {
                        assert(step(self@) == StepResult::Fail(e));
                    }
                    return Err(e);
                },
            };
            match instruction.operation {
                Operation::Add | Operation::Multiply => {
                    let is_add = matches!(instruction.operation, Operation::Add);
                    let v0 = match self.get_mode_argument(&instruction, 0) {
                        Ok(v) => v,
                        Err(e) => {
                            return Err(e);
                        },
                    };
                    let v1 = match self.get_mode_argument(&instruction, 1) {
                        Ok(v) => v,
                        Err(e) => {
                            return Err(e);
                        },
                    };
                    let d = match self.get_address_argument(&instruction, 2) {
                        Ok(d) => d,
                        Err(e) => {
                            return Err(e);
                        },
                    };
                    let wide: i128 = if is_add {
                        (v0 as i128) + (v1 as i128)
                    } else {
                        proof {
                            let a = v0 as int;
                            let b = v1 as int;
                            assert(-0x40000000000000000000000000000000 <= a * b
                                <= 0x40000000000000000000000000000000) by (nonlinear_arith)
                                requires
                                    -0x8000000000000000 <= a <= 0x7fffffffffffffff,
                                    -0x8000000000000000 <= b <= 0x7fffffffffffffff,
                            ;
                        }
                        (v0 as i128) * (v1 as i128)
                    };
                    if wide < (i64::MIN as i128) || wide > (i64::MAX as i128) {
                        return Err(ExecError::Overflow);
                    }
                    if !self.advance_in_bounds(&instruction) {
                        return Err(ExecError::OutOfBounds);
                    }
                    self.memwrite(d, wide as i64);
                    self.advance_instruction_pointer(&instruction);
                    proof {
                        assert(step(pre) == StepResult::Next(self@));
                    }
                },
                Operation::Read => {
                    let d = match self.get_address_argument(&instruction, 0) {
                        Ok(d) => d,
                        Err(e) => {
                            return Err(e);
                        },
                    };
                    if self.input_pipe.is_none() {
                        return Err(ExecError::NoInputPipe);
                    }
                    let ready = self.input_pipe.as_ref().unwrap().can_read();
                    if !ready {
                        return Err(ExecError::InputExhausted);
                    }
                    if !self.advance_in_bounds(&instruction) {
                        return Err(ExecError::OutOfBounds);
                    }
                    let input = self.read_input();
                    self.memwrite(d, input);
                    self.advance_instruction_pointer(&instruction);
                    proof {
                        assert(step(pre) == StepResult::Next(self@));
                    }
                },
                Operation::Write => {
                    let v0 = match self.get_mode_argument(&instruction, 0) {
                        Ok(v) => v,
                        Err(e) => {
                            return Err(e);
                        },
                    };
                    if self.output_pipe.is_none() {
                        return Err(ExecError::NoOutputPipe);
                    }
                    if !self.advance_in_bounds(&instruction) {
                        return Err(ExecError::OutOfBounds);
                    }
                    self.write_output(v0);
                    self.advance_instruction_pointer(&instruction);
                    proof {
                        assert(step(pre) == StepResult::Next(self@));
                    }
                },
                Operation::JumpIfTrue | Operation::JumpIfFalse => {
                    let on_nonzero = matches!(instruction.operation, Operation::JumpIfTrue);
                    let v0 = match self.get_mode_argument(&instruction, 0) {
                        Ok(v) => v,
                        Err(e) => {
                            return Err(e);
                        },
                    };
                    let t = match self.get_mode_argument(&instruction, 1) {
                        Ok(v) => v,
                        Err(e) => {
                            return Err(e);
                        },
                    };
                    let taken = if on_nonzero {
                        v0 != 0
                    } else {
                        v0 == 0
                    };
                    if taken {
                        if t < 0 || (t as u128) >= (self.memory.len() as u128) {
                            return Err(ExecError::OutOfBounds);
                        }
                        self.set_instruction_pointer(t as usize);
                    } else {
                        if !self.advance_in_bounds(&instruction) {
                            return Err(ExecError::OutOfBounds);
                        }
                        self.advance_instruction_pointer(&instruction);
                    }
                    proof {
                        assert(step(pre) == StepResult::Next(self@));
                    }
                },
                Operation::LessThan | Operation::Equals => {
                    let is_less_than = matches!(instruction.operation, Operation::LessThan);
                    let v0 = match self.get_mode_argument(&instruction, 0) {
                        Ok(v) => v,
                        Err(e) => {
                            return Err(e);
                        },
                    };
                    let v1 = match self.get_mode_argument(&instruction, 1) {
                        Ok(v) => v,
                        Err(e) => {
                            return Err(e);
                        },
                    };
                    let d = match self.get_address_argument(&instruction, 2) {
                        Ok(d) => d,
                        Err(e) => {
                            return Err(e);
                        },
                    };
                    let holds = if is_less_than {
                        v0 < v1
                    } else {
                        v0 == v1
                    };
                    let bit: i64 = if holds {
                        1
                    } else {
                        0
                    };
                    if !self.advance_in_bounds(&instruction) {
                        return Err(ExecError::OutOfBounds);
                    }
                    self.memwrite(d, bit);
                    self.advance_instruction_pointer(&instruction);
                    proof {
                        assert(step(pre) == StepResult::Next(self@));
                    }
                },
                Operation::Halt => {
                    proof {
                        assert(step(self@) == StepResult::Halted);
                    }
                    return Ok(());
                },
            }
            proof {
                steps = steps + 1;
                assert(reach(s0, steps) == Some(self@));
            }
        }
    }
}

} // verus!
