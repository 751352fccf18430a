use intcode::execution::IntCodeExecution;
use intcode::pipe::Pipe;
use intcode::program::IntCodeProgram;

#[test]
fn test_basic_add() {
    let program = IntCodeProgram::from_string(String::from("1,0,0,0,99")).unwrap();
    let mut execution = IntCodeExecution::new(program);
    execution.execute().unwrap();
    assert_eq!(vec![2, 0, 0, 0, 99], execution.memory);
}

#[test]
fn test_basic_multiply() {
    let program = IntCodeProgram::from_string(String::from("2,3,0,3,99")).unwrap();
    let mut execution = IntCodeExecution::new(program);
    execution.execute().unwrap();
    assert_eq!(vec![2, 3, 0, 6, 99], execution.memory);
}

#[test]
fn test_multiply2() {
    let program = IntCodeProgram::from_string(String::from("2,4,4,5,99,0")).unwrap();
    let mut execution = IntCodeExecution::new(program);
    execution.execute().unwrap();
    assert_eq!(vec![2, 4, 4, 5, 99, 9801], execution.memory);
}

#[test]
fn test_intermediate() {
    let program = IntCodeProgram::from_string(String::from("1,1,1,4,99,5,6,0,99")).unwrap();
    let mut execution = IntCodeExecution::new(program);
    execution.execute().unwrap();
    assert_eq!(vec![30, 1, 1, 4, 2, 5, 6, 0, 99], execution.memory);
}

#[test]
fn test_intermediate2() {
    let program = IntCodeProgram::from_string(String::from("1002,4,3,4,33")).unwrap();
    let mut execution = IntCodeExecution::new(program);
    execution.execute().unwrap();
    assert_eq!(vec![1002, 4, 3, 4, 99], execution.memory);
}

#[test]
fn test_negative() {
    let program = IntCodeProgram::from_string(String::from("1101,100,-1,4,0")).unwrap();
    let mut execution = IntCodeExecution::new(program);
    execution.execute().unwrap();
    assert_eq!(vec![1101, 100, -1, 4, 99], execution.memory);
}

#[test]
fn test_output() {
    let program = IntCodeProgram::from_string(String::from("1,0,0,0,4,0,99")).unwrap();
    let mut execution = IntCodeExecution::new(program);
    execution.set_output_pipe(Pipe::new_ref());
    execution.execute().unwrap();
    assert_eq!(vec![2, 0, 0, 0, 4, 0, 99], execution.memory);
    {
        let mut output_pipe = execution.take_output_pipe().unwrap();
        assert_eq!(2, output_pipe.read());
        assert!(!output_pipe.can_read());
    }
}

#[test]
fn test_input() {
    let program = IntCodeProgram::from_string(String::from("3,1,1001,1,1,1,99")).unwrap();
    let mut execution = IntCodeExecution::new(program);
    let mut input_pipe = Pipe::new_ref();
    input_pipe.write(4);
    execution.set_input_pipe(input_pipe);
    execution.execute().unwrap();
    assert_eq!(vec![3, 5, 1001, 1, 1, 1, 99], execution.memory);
}

#[test]
fn test_eq() {
    let program = IntCodeProgram::from_string(String::from("3,9,8,9,10,9,4,9,99,-1,8")).unwrap();
    let mut input_pipe = Pipe::new_ref();
    let output_pipe = Pipe::new_ref();
    let mut execution = IntCodeExecution::new(program);
    input_pipe.write(8);
    execution.set_input_pipe(input_pipe);
    execution.set_output_pipe(output_pipe);
    execution.execute().unwrap();
    {
        let mut output_pipe = execution.take_output_pipe().unwrap();
        assert_eq!(1, output_pipe.read());
    }
}

fn input_output_test_wrapper(program_str: String, input: Vec<i64>, expected_output: Vec<i64>) {
    let program = IntCodeProgram::from_string(program_str).unwrap();
    let mut execution = IntCodeExecution::new(program);
    let mut input_pipe = Pipe::new_ref();
    let output_pipe = Pipe::new_ref();
    for input_int in input {
        input_pipe.write(input_int);
    }
    execution.set_input_pipe(input_pipe);
    execution.set_output_pipe(output_pipe);
    execution.execute().unwrap();
    {
        let mut output_pipe = execution.take_output_pipe().unwrap();
        let mut actual_output: Vec<i64> = Vec::new();
        while output_pipe.can_read() {
            actual_output.push(output_pipe.read());
        }
        assert_eq!(expected_output, actual_output);
    }
}

#[test]
fn test_eq1() {
    let program = String::from("3,9,8,9,10,9,4,9,99,-1,8");
    let input = vec![42];
    let expected_output = vec![0];
    input_output_test_wrapper(program, input, expected_output);
}

#[test]
fn test_lt_positional() {
    let program = String::from("3,9,7,9,10,9,4,9,99,-1,8");
    let input = vec![7];
    let expected_output = vec![1];
    input_output_test_wrapper(program, input, expected_output);
}

#[test]
fn test_lt_positional1() {
    let program = String::from("3,9,7,9,10,9,4,9,99,-1,8");
    let input = vec![9];
    let expected_output = vec![0];
    input_output_test_wrapper(program, input, expected_output);
}

#[test]
fn test_eq_immediate() {
    let program = String::from("3,3,1108,-1,8,3,4,3,99");
    let input = vec![8];
    let expected_output = vec![1];
    input_output_test_wrapper(program, input, expected_output);
}

#[test]
fn test_eq_immediate1() {
    let program = String::from("3,3,1108,-1,8,3,4,3,99");
    let input = vec![7];
    let expected_output = vec![0];
    input_output_test_wrapper(program, input, expected_output);
}

#[test]
fn test_lt_immediate() {
    let program = String::from("3,3,1107,-1,8,3,4,3,99");
    let input = vec![7];
    let expected_output = vec![1];
    input_output_test_wrapper(program, input, expected_output);
}

#[test]
fn test_lt_immediate1() {
    let program = String::from("3,3,1107,-1,8,3,4,3,99");
    let input = vec![8];
    let expected_output = vec![0];
    input_output_test_wrapper(program, input, expected_output);
}

#[test]
fn test_jmp() {
    let program = String::from("3,12,6,12,15,1,13,14,13,4,13,99,-1,0,1,9");
    let input = vec![0];
    let expected_output = vec![0];
    input_output_test_wrapper(program, input, expected_output);
}

#[test]
fn test_jmp_1() {
    let program = String::from("3,12,6,12,15,1,13,14,13,4,13,99,-1,0,1,9");
    let input = vec![10];
    let expected_output = vec![1];
    input_output_test_wrapper(program, input, expected_output);
}

#[test]
fn test_larger_lt() {
    let program = String::from(
        "3,21,1008,21,8,20,1005,20,22,107,8,21,20,1006,20,31,1106,0,36,98,0,0,1002,21,125,20,4,20,1105,1,46,104,999,1105,1,46,1101,1000,1,20,4,20,1105,1,46,98,99",
    );
    let input = vec![4];
    let expected_output = vec![999];
    input_output_test_wrapper(program, input, expected_output);
}

#[test]
fn test_larger_eq() {
    let program = String::from(
        "3,21,1008,21,8,20,1005,20,22,107,8,21,20,1006,20,31,1106,0,36,98,0,0,1002,21,125,20,4,20,1105,1,46,104,999,1105,1,46,1101,1000,1,20,4,20,1105,1,46,98,99",
    );
    let input = vec![8];
    let expected_output = vec![1000];
    input_output_test_wrapper(program, input, expected_output);
}

#[test]
fn test_larger_gt() {
    let program = String::from(
        "3,21,1008,21,8,20,1005,20,22,107,8,21,20,1006,20,31,1106,0,36,98,0,0,1002,21,125,20,4,20,1105,1,46,104,999,1105,1,46,1101,1000,1,20,4,20,1105,1,46,98,99",
    );
    let input = vec![10];
    let expected_output = vec![1001];
    input_output_test_wrapper(program, input, expected_output);
}

#[test]
fn test_immediate_and_position_agree() {
    // An immediate argument and a position argument whose referenced cell
    // holds the same value produce the same result.
    let immediate = IntCodeProgram::from_string(String::from("1101,2,3,0,99")).unwrap();
    let mut immediate_run = IntCodeExecution::new(immediate);
    immediate_run.execute().unwrap();
    let positional = IntCodeProgram::from_string(String::from("1,5,6,0,99,2,3")).unwrap();
    let mut positional_run = IntCodeExecution::new(positional);
    positional_run.execute().unwrap();
    assert_eq!(5, immediate_run.memory[0]);
    assert_eq!(5, positional_run.memory[0]);
}

#[test]
fn test_output_values_in_program_order() {
    let program = IntCodeProgram::from_string(String::from("104,10,104,20,104,30,99")).unwrap();
    let mut execution = IntCodeExecution::new(program);
    execution.set_output_pipe(Pipe::new());
    execution.execute().unwrap();
    let mut output_pipe = execution.take_output_pipe().unwrap();
    assert_eq!(10, output_pipe.read());
    assert_eq!(20, output_pipe.read());
    assert_eq!(30, output_pipe.read());
    assert!(!output_pipe.can_read());
}

#[test]
fn test_halt_ignores_high_digits() {
    let program = IntCodeProgram::from_string(String::from("10099")).unwrap();
    let mut execution = IntCodeExecution::new(program);
    execution.execute().unwrap();
    assert_eq!(vec![10099], execution.memory);
}

#[test]
fn test_unconsumed_input_remains() {
    let program = IntCodeProgram::from_string(String::from("3,0,99")).unwrap();
    let mut execution = IntCodeExecution::new(program);
    let mut input_pipe = Pipe::new();
    input_pipe.write(7);
    input_pipe.write(8);
    execution.set_input_pipe(input_pipe);
    execution.execute().unwrap();
    assert_eq!(vec![7, 0, 99], execution.memory);
    let mut input_pipe = execution.take_input_pipe().unwrap();
    assert_eq!(8, input_pipe.read());
    assert!(!input_pipe.can_read());
}
