use intcode::execution::IntCodeExecution;
use intcode::pipe::Pipe;
use intcode::program::IntCodeProgram;
use intcode::semantics::ExecError;

fn run(text: &str) -> (Result<(), ExecError>, IntCodeExecution) {
    let program = IntCodeProgram::from_string(String::from(text)).unwrap();
    let mut execution = IntCodeExecution::new(program);
    let outcome = execution.execute();
    (outcome, execution)
}

#[test]
fn test_invalid_opcode() {
    let (outcome, _) = run("42,0,0,0,99");
    assert_eq!(Err(ExecError::InvalidOpcode), outcome);
}

#[test]
fn test_negative_word_is_invalid_opcode() {
    let (outcome, _) = run("-1,0,0,0,99");
    assert_eq!(Err(ExecError::InvalidOpcode), outcome);
}

#[test]
fn test_invalid_parameter_mode() {
    // Opcode 3 (Read) with mode digit 2.
    let (outcome, _) = run("203,0,99");
    assert_eq!(Err(ExecError::InvalidParameterMode), outcome);
}

#[test]
fn test_out_of_bounds_destination() {
    let (outcome, _) = run("1,0,0,100,99");
    assert_eq!(Err(ExecError::OutOfBounds), outcome);
}

#[test]
fn test_out_of_bounds_position_argument() {
    let (outcome, _) = run("1,100,0,0,99");
    assert_eq!(Err(ExecError::OutOfBounds), outcome);
}

#[test]
fn test_out_of_bounds_negative_jump_target() {
    let (outcome, _) = run("1105,1,-4,99");
    assert_eq!(Err(ExecError::OutOfBounds), outcome);
}

#[test]
fn test_missing_halt_runs_off_the_end() {
    let (outcome, _) = run("1101,1,1,0");
    assert_eq!(Err(ExecError::OutOfBounds), outcome);
}

#[test]
fn test_read_without_input_pipe() {
    let (outcome, _) = run("3,0,99");
    assert_eq!(Err(ExecError::NoInputPipe), outcome);
}

#[test]
fn test_write_without_output_pipe() {
    let (outcome, _) = run("4,0,99");
    assert_eq!(Err(ExecError::NoOutputPipe), outcome);
}

#[test]
fn test_read_from_empty_input_is_exhaustion() {
    // A Read facing a bound but never-written input channel fails with
    // channel exhaustion, and nothing is written to memory.
    let program = IntCodeProgram::from_string(String::from("3,0,99")).unwrap();
    let mut execution = IntCodeExecution::new(program);
    execution.set_input_pipe(Pipe::new());
    let outcome = execution.execute();
    assert_eq!(Err(ExecError::InputExhausted), outcome);
    assert_eq!(vec![3, 0, 99], execution.memory);
}

#[test]
fn test_read_past_supplied_input_is_exhaustion() {
    let program = IntCodeProgram::from_string(String::from("3,0,3,1,3,2,99")).unwrap();
    let mut execution = IntCodeExecution::new(program);
    let mut input_pipe = Pipe::new();
    input_pipe.write(5);
    input_pipe.write(6);
    execution.set_input_pipe(input_pipe);
    let outcome = execution.execute();
    assert_eq!(Err(ExecError::InputExhausted), outcome);
    assert_eq!(vec![5, 6, 3, 1, 3, 2, 99], execution.memory);
}

#[test]
fn test_add_overflow() {
    let (outcome, _) = run("1101,9223372036854775807,1,0,99");
    assert_eq!(Err(ExecError::Overflow), outcome);
}

#[test]
fn test_multiply_overflow() {
    let (outcome, _) = run("1102,9223372036854775807,2,0,99");
    assert_eq!(Err(ExecError::Overflow), outcome);
}

#[test]
fn test_error_aborts_with_no_partial_effect() {
    // The second instruction's destination is out of bounds: the first
    // instruction's write is kept, the failing one has no effect.
    let (outcome, execution) = run("1101,1,1,0,1101,1,1,100,99");
    assert_eq!(Err(ExecError::OutOfBounds), outcome);
    assert_eq!(vec![2, 1, 1, 0, 1101, 1, 1, 100, 99], execution.memory);
}

#[test]
fn test_empty_program_is_out_of_bounds() {
    // from_string rejects the empty text, so build the image directly.
    let program = IntCodeProgram { program: Vec::new() };
    let mut execution = IntCodeExecution::new(program);
    assert_eq!(Err(ExecError::OutOfBounds), execution.execute());
}
