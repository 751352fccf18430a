use vstd::prelude::*;

use crate::operation::Operation;

verus! {

/// How an argument's raw value is interpreted: `Position` dereferences it as
/// a memory address, `Immediate` uses it as the value itself. An argument
/// used as a write destination always uses its raw value as an address and
/// its mode is not consulted.
#[derive(Debug, Clone, Copy, PartialEq, Eq, Structural)]
pub enum ParameterMode {
    Position,
    Immediate,
}

/// The addressing mode selected by one mode digit, or `None` for a digit
/// outside {0, 1}.
pub open spec fn mode_of(d: int) -> Option<ParameterMode> {
    if d == 0 {
        Some(ParameterMode::Position)
    } else if d == 1 {
        Some(ParameterMode::Immediate)
    } else {
        None
    }
}

impl ParameterMode {
    /// Decodes one addressing-mode digit.
    pub fn from_i64(input: i64) -> (r: Option<ParameterMode>)
        ensures
            r == mode_of(input as int),
    {
        match input {
            0 => Some(ParameterMode::Position),
            1 => Some(ParameterMode::Immediate),
            _ => None,
        }
    }
}

/// A raw integer value paired with its addressing mode.
#[derive(Debug, Clone, Copy, PartialEq, Eq, Structural)]
pub struct Argument {
    pub value: i64,
    pub parameter_mode: ParameterMode,
}

/// Mathematical view of a decoded instruction.
#[verifier::ext_equal]
pub struct InstructionModel {
    pub operation: Operation,
    pub arguments: Seq<Argument>,
}

/// A decoded instruction: an operation and its arguments, recomputed from
/// memory every cycle and never persisted. The argument count is exactly
/// determined by the operation kind.
#[derive(Debug, Clone)]
pub struct Instruction {
    pub operation: Operation,
    pub arguments: Vec<Argument>,
}

impl View for Instruction {
    type V = InstructionModel;

    open spec fn view(&self) -> InstructionModel {
        InstructionModel { operation: self.operation, arguments: self.arguments@ }
    }
}

} // verus!
