use vstd::prelude::*;

verus! {

/// The nine operations of the instruction set. The set is closed and each
/// operation takes a fixed number of arguments.
#[derive(Debug, Clone, Copy, PartialEq, Eq, Structural)]
pub enum Operation {
    Add,
    Multiply,
    Read,
    Write,
    JumpIfTrue,
    JumpIfFalse,
    LessThan,
    Equals,
    Halt,
}

/// The fixed opcode table: the operation selected by an instruction word's
/// two low decimal digits, or `None` for a value outside the table.
pub open spec fn operation_of(v: int) -> Option<Operation> {
    if v == 1 {
        Some(Operation::Add)
    } else if v == 2 {
        Some(Operation::Multiply)
    } else if v == 3 {
        Some(Operation::Read)
    } else if v == 4 {
        Some(Operation::Write)
    } else if v == 5 {
        Some(Operation::JumpIfTrue)
    } else if v == 6 {
        Some(Operation::JumpIfFalse)
    } else if v == 7 {
        Some(Operation::LessThan)
    } else if v == 8 {
        Some(Operation::Equals)
    } else if v == 99 {
        Some(Operation::Halt)
    } else {
        None
    }
}

/// How many arguments each operation takes: a pure function of the kind.
pub open spec fn arg_count(op: Operation) -> nat {
    match op {
        Operation::Add => 3,
        Operation::Multiply => 3,
        Operation::Read => 1,
        Operation::Write => 1,
        Operation::JumpIfTrue => 2,
        Operation::JumpIfFalse => 2,
        Operation::LessThan => 3,
        Operation::Equals => 3,
        Operation::Halt => 0,
    }
}

impl Operation {
    /// Looks an opcode up in the operation table.
    pub fn from_i64(input: i64) -> (r: Option<Operation>)
        ensures
            r == operation_of(input as int),
    {
        match input {
            1 => Some(Operation::Add),
            2 => Some(Operation::Multiply),
            3 => Some(Operation::Read),
            4 => Some(Operation::Write),
            5 => Some(Operation::JumpIfTrue),
            6 => Some(Operation::JumpIfFalse),
            7 => Some(Operation::LessThan),
            8 => Some(Operation::Equals),
            99 => Some(Operation::Halt),
            _ => None,
        }
    }

    /// The number of argument words that follow the instruction word.
    pub fn argument_count(&self) -> (r: usize)
        ensures
            r == arg_count(*self),
    {
        match *self {
            Operation::Add => 3,
            Operation::Multiply => 3,
            Operation::Read => 1,
            Operation::Write => 1,
            Operation::JumpIfTrue => 2,
            Operation::JumpIfFalse => 2,
            Operation::LessThan => 3,
            Operation::Equals => 3,
            Operation::Halt => 0,
        }
    }
}

} // verus!
