use vstd::prelude::*;

use crate::instruction::{Argument, ParameterMode};
use crate::operation::Operation;
use crate::pipe::ChannelModel;
use crate::semantics::{
    decode, reach, resolve_dest, resolve_value, step, ExecError, State, StepResult,
};

verus! {

/// An Immediate argument and a Position argument yield identical results when
/// the Position argument's referenced cell holds the Immediate literal.
pub proof fn lemma_mode_equivalence(mem: Seq<i64>, addr: i64, lit: i64)
    requires
        0 <= addr < mem.len(),
        mem[addr as int] == lit,
    ensures
        resolve_value(mem, (Argument { value: addr, parameter_mode: ParameterMode::Position }))
            == resolve_value(
            mem,
            (Argument { value: lit, parameter_mode: ParameterMode::Immediate }),
        ),
        resolve_value(mem, (Argument { value: addr, parameter_mode: ParameterMode::Position }))
            == Ok::<i64, ExecError>(lit),
{
}

/// A Read instruction facing an empty, never-written input channel fails with
/// channel exhaustion. (Its destination must be a valid address: an invalid
/// destination fails earlier, as out of bounds.)
pub proof fn lemma_read_empty_input_fails(s: State)
    requires
        decode(s.mem, s.pc as int) matches Ok(ins) && ins.operation == Operation::Read
            && resolve_dest(s.mem, ins.arguments[0]) is Ok,
        s.input == Some(ChannelModel { data: Seq::<i64>::empty(), read_pos: 0 as nat }),
    ensures
        step(s) == StepResult::Fail(ExecError::InputExhausted),
{
}

/// Each executed Write appends exactly one value — its resolved value
/// argument — at the tail of the output channel, and no other operation
/// changes the output channel at all. Writes therefore land in the output in
/// program order, and the channel returns them in that order, each exactly
/// once, through its `read`/`can_read` contract.
pub proof fn lemma_output_per_step(s: State, s2: State)
    requires
        step(s) == StepResult::Next(s2),
    ensures
        (match decode(s.mem, s.pc as int) {
            Ok(ins) => {
                if ins.operation == Operation::Write {
                    match (s.output, resolve_value(s.mem, ins.arguments[0])) {
                        (Some(ch), Ok(v)) => s2.output == Some(
                            ChannelModel { data: ch.data.push(v), read_pos: ch.read_pos },
                        ),
                        _ => false,
                    }
                } else {
                    s2.output == s.output
                }
            },
            Err(_) => false,
        }),
{
}

/// On a cycle where a jump redirects control, the default program-counter
/// advance is not applied: the next program counter is exactly the jump
/// target, and memory is untouched.
pub proof fn lemma_jump_redirects(s: State, s2: State)
    requires
        step(s) == StepResult::Next(s2),
        decode(s.mem, s.pc as int) matches Ok(ins) && (ins.operation == Operation::JumpIfTrue
            || ins.operation == Operation::JumpIfFalse) && (match resolve_value(
            s.mem,
            ins.arguments[0],
        ) {
            Ok(v0) => if ins.operation == Operation::JumpIfTrue {
                v0 != 0
            } else {
                v0 == 0
            },
            Err(_) => false,
        }),
    ensures
        (match decode(s.mem, s.pc as int) {
            Ok(ins) => match resolve_value(s.mem, ins.arguments[1]) {
                Ok(t) => s2.pc == t as nat && s2.mem == s.mem,
                Err(_) => false,
            },
            Err(_) => false,
        }),
{
}

/// LessThan and Equals write exactly 0 or 1 at their destination — never any
/// other value — and change no other cell.
pub proof fn lemma_comparison_writes_bit(s: State, s2: State)
    requires
        step(s) == StepResult::Next(s2),
        decode(s.mem, s.pc as int) matches Ok(ins) && (ins.operation == Operation::LessThan
            || ins.operation == Operation::Equals),
    ensures
        (match decode(s.mem, s.pc as int) {
            Ok(ins) => match resolve_dest(s.mem, ins.arguments[2]) {
                Ok(d) => (s2.mem[d] == 0 || s2.mem[d] == 1) && s2.mem == s.mem.update(
                    d,
                    s2.mem[d],
                ),
                Err(_) => false,
            },
            Err(_) => false,
        }),
{
}

/// The instruction at `pc` is an Add or Multiply whose arguments resolve,
/// whose result fits in 64 bits, whose destination is a valid address, and
/// whose advance stays inside memory.
pub open spec fn arith_step_ok(mem: Seq<i64>, pc: nat) -> bool {
    match decode(mem, pc as int) {
        Ok(ins) => (ins.operation == Operation::Add || ins.operation == Operation::Multiply)
            && resolve_value(mem, ins.arguments[0]) is Ok && resolve_value(mem, ins.arguments[1])
            is Ok && resolve_dest(mem, ins.arguments[2]) is Ok && i64::MIN <= arith_step_result(
            mem,
            pc,
        ) <= i64::MAX && pc + 4 < mem.len(),
        Err(_) => false,
    }
}

/// The arithmetic result of the Add or Multiply at `pc`.
pub open spec fn arith_step_result(mem: Seq<i64>, pc: nat) -> int {
    match decode(mem, pc as int) {
        Ok(ins) => match (resolve_value(mem, ins.arguments[0]), resolve_value(
            mem,
            ins.arguments[1],
        )) {
            (Ok(v0), Ok(v1)) => if ins.operation == Operation::Add {
                v0 + v1
            } else {
                v0 * v1
            },
            _ => 0,
        },
        Err(_) => 0,
    }
}

/// The destination address of the Add or Multiply at `pc`.
pub open spec fn arith_step_dest(mem: Seq<i64>, pc: nat) -> int {
    match decode(mem, pc as int) {
        Ok(ins) => match resolve_dest(mem, ins.arguments[2]) {
            Ok(d) => d,
            Err(_) => 0,
        },
        Err(_) => 0,
    }
}

/// The memory after the Add or Multiply at `pc`: its result at its
/// destination, every other cell exactly as before.
pub open spec fn arith_step_mem(mem: Seq<i64>, pc: nat) -> Seq<i64> {
    mem.update(arith_step_dest(mem, pc), arith_step_result(mem, pc) as i64)
}

/// A straight-line block: `k` consecutive Add/Multiply instructions starting
/// at `pc`, each well formed in the memory as it stands when reached.
pub open spec fn arith_block_ok(mem: Seq<i64>, pc: nat, k: nat) -> bool
    decreases k,
{
    k == 0 || (arith_step_ok(mem, pc) && arith_block_ok(
        arith_step_mem(mem, pc),
        (pc + 4) as nat,
        (k - 1) as nat,
    ))
}

/// The memory after such a block: each instruction's arithmetic result
/// written at its destination, in program order, all other cells unchanged.
pub open spec fn arith_block_mem(mem: Seq<i64>, pc: nat, k: nat) -> Seq<i64>
    decreases k,
{
    if k == 0 {
        mem
    } else {
        arith_block_mem(arith_step_mem(mem, pc), (pc + 4) as nat, (k - 1) as nat)
    }
}

/// The destination addresses the block writes to, each taken in the memory
/// as it stands when its instruction is reached.
pub open spec fn arith_block_writes(mem: Seq<i64>, pc: nat, k: nat) -> Set<int>
    decreases k,
{
    if k == 0 {
        Set::<int>::empty()
    } else {
        arith_block_writes(arith_step_mem(mem, pc), (pc + 4) as nat, (k - 1) as nat).insert(
            arith_step_dest(mem, pc),
        )
    }
}

/// A cell that no instruction of the block targets holds its original value
/// in the final memory: the block writes its destinations and nothing else,
/// and never changes the memory's length.
pub proof fn lemma_arith_block_untouched(mem: Seq<i64>, pc: nat, k: nat, i: int)
    requires
        arith_block_ok(mem, pc, k),
        !arith_block_writes(mem, pc, k).contains(i),
    ensures
        arith_block_mem(mem, pc, k).len() == mem.len(),
        0 <= i < mem.len() ==> arith_block_mem(mem, pc, k)[i] == mem[i],
    decreases k,
{
    if k > 0 {
        lemma_arith_block_untouched(arith_step_mem(mem, pc), (pc + 4) as nat, (k - 1) as nat, i);
    }
}

/// A Halt instruction sits at `pc`.
pub open spec fn halts_at(mem: Seq<i64>, pc: nat) -> bool {
    pc < mem.len() && mem[pc as int] >= 0 && mem[pc as int] % 100 == 99
}

/// One well-formed Add or Multiply takes exactly one step: it writes its
/// result at its destination and advances the program counter by four.
proof fn lemma_arith_step(s: State)
    requires
        arith_step_ok(s.mem, s.pc),
    ensures
        step(s) == StepResult::Next(
            State {
                mem: arith_step_mem(s.mem, s.pc),
                pc: (s.pc + 4) as nat,
                input: s.input,
                output: s.output,
            },
        ),
{
}

/// A Halt instruction ends the run with no further state change.
proof fn lemma_halt_step(s: State)
    requires
        halts_at(s.mem, s.pc),
    ensures
        step(s) == StepResult::Halted,
{
}

/// For a program that is a straight-line block of Add/Multiply instructions
/// followed by Halt, the machine executes each instruction once, in order,
/// and halts: the final memory is exactly each instruction's arithmetic
/// result written at its destination, all other cells unchanged
/// (`arith_block_mem` is that chain of single-cell updates). Together with
/// the contract of `execute` and `lemma_outcome_unique`, this pins down the
/// result of running such a program completely.
pub proof fn theorem_arith_block_halts(s: State, k: nat)
    requires
        arith_block_ok(s.mem, s.pc, k),
        halts_at(arith_block_mem(s.mem, s.pc, k), (s.pc + 4 * k) as nat),
    ensures
        reach(s, k) == Some(
            State {
                mem: arith_block_mem(s.mem, s.pc, k),
                pc: (s.pc + 4 * k) as nat,
                input: s.input,
                output: s.output,
            },
        ),
        step(
            State {
                mem: arith_block_mem(s.mem, s.pc, k),
                pc: (s.pc + 4 * k) as nat,
                input: s.input,
                output: s.output,
            },
        ) == StepResult::Halted,
    decreases k,
{
    if k == 0 {
        assert(reach(s, 0) == Some(s));
        assert(s == (State { mem: arith_block_mem(s.mem, s.pc, 0), pc: (s.pc + 0) as nat, input: s.input, output: s.output }));
        lemma_halt_step(s);
    } else {
        lemma_arith_step(s);
        let s1 = State {
            mem: arith_step_mem(s.mem, s.pc),
            pc: (s.pc + 4) as nat,
            input: s.input,
            output: s.output,
        };
        theorem_arith_block_halts(s1, (k - 1) as nat);
        assert(reach(s, 0) == Some(s));
        assert(reach(s, 1) == Some(s1));
        crate::semantics::lemma_reach_add(s, 1, (k - 1) as nat);
        assert(arith_block_mem(s.mem, s.pc, k) == arith_block_mem(s1.mem, s1.pc, (k - 1) as nat));
        assert(s.pc + 4 * k == s1.pc + 4 * (k - 1));
    }
}

} // verus!
