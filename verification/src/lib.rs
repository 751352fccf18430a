//! A small stored-program virtual machine.
//!
//! Programs are flat arrays of signed 64-bit integers. Each instruction word
//! packs an opcode in its two low decimal digits and one addressing-mode digit
//! per argument above them. The engine runs a fetch-decode-execute loop over
//! the array, talking to the outside world through two ordered channels.
//!
//! The small-step semantics of the machine is written down as spec functions
//! in `semantics`; the executable engine in `execution` is proved to follow
//! them exactly, and `props` states the laws that hold of every run.

pub mod execution;
pub mod instruction;
pub mod operation;
pub mod pipe;
pub mod program;
pub mod props;
pub mod semantics;
