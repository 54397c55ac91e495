use tape_vm::error::ExecutionError;
use tape_vm::executor::Executor;
use tape_vm::parser::parse;

const HELLO: &[u8] = b"++++++++[>++++[>++>+++>+++>+<<<<-]>+>+>->>+[<]<-]>>.>---.+++++++..+++.>>.<-.<.+++.------.--------.>>+.>++.";

fn run_source(source: &[u8], input: &[u8]) -> (Executor, Vec<u8>, Result<usize, ExecutionError>) {
    let mut executor = Executor::new(parse(source));
    let mut output = Vec::new();
    let outcome = executor.run(input, &mut output, 10_000_000);
    (executor, output, outcome)
}

fn halted(executor: &Executor) -> bool {
    executor.instruction_ptr() >= executor.instructions().len()
}

#[test]
fn increments_then_outputs() {
    let (executor, output, outcome) = run_source(b"++.", &[]);
    assert!(matches!(outcome, Ok(0)));
    assert_eq!(output, vec![2u8]);
    assert_eq!(executor.cells()[0], 2);
    assert!(halted(&executor));
}

#[test]
fn echoes_one_byte() {
    let (executor, output, outcome) = run_source(b",.", &[65]);
    assert!(matches!(outcome, Ok(1)));
    assert_eq!(output, vec![b'A']);
    assert_eq!(executor.cells()[0], 65);
    assert!(halted(&executor));
}

#[test]
fn loop_clears_the_cell() {
    let (executor, output, outcome) = run_source(b"+[-]", &[]);
    assert!(matches!(outcome, Ok(0)));
    assert!(output.is_empty());
    assert_eq!(executor.cells()[0], 0);
    assert!(halted(&executor));
}

#[test]
fn loop_body_runs_once() {
    let mut executor = Executor::new(parse(b"+[->+<]"));
    let mut output = Vec::new();
    // one addition, the bracket, four fused instructions of the body, the bracket
    let outcome = executor.run(&[], &mut output, 7);
    assert!(matches!(outcome, Ok(0)));
    assert!(halted(&executor));
    assert_eq!(executor.cells()[0], 0);
    assert_eq!(executor.cells()[1], 1);
}

#[test]
fn lone_open_bracket_starts_nothing() {
    let (executor, output, outcome) = run_source(b"[", &[7]);
    assert!(matches!(outcome, Err(ExecutionError::UnexpectedBracket(0))));
    assert!(output.is_empty());
    assert_eq!(executor.instruction_ptr(), 0);
    assert_eq!(executor.buffer_ptr(), 0);
    assert!(executor.cells().iter().all(|cell| *cell == 0));
}

#[test]
fn unbalanced_program_with_commands_starts_nothing() {
    let (executor, output, outcome) = run_source(b"+.,]", &[7]);
    // the fused program is `Add(1) Output Input LoopEnd`
    assert!(matches!(outcome, Err(ExecutionError::UnexpectedBracket(3))));
    assert!(output.is_empty());
    assert_eq!(executor.cells()[0], 0);
    assert_eq!(executor.instruction_ptr(), 0);
}

#[test]
fn hello_world() {
    let (_, output, outcome) = run_source(HELLO, &[]);
    assert!(matches!(outcome, Ok(0)));
    assert_eq!(output, b"Hello World!\n".to_vec());
}

#[test]
fn comments_change_nothing() {
    let mut commented: Vec<u8> = Vec::new();
    for (index, byte) in HELLO.iter().enumerate() {
        commented.extend_from_slice(b"set up \n\t");
        commented.push(0xff);
        commented.push(1 + (index % 40) as u8);
        commented.push(*byte);
        commented.extend_from_slice(b" ok!");
    }
    assert_eq!(parse(&commented), parse(HELLO));
    let (plain_executor, plain_output, plain_outcome) = run_source(HELLO, &[]);
    let (executor, output, outcome) = run_source(&commented, &[]);
    assert!(matches!(plain_outcome, Ok(0)));
    assert!(matches!(outcome, Ok(0)));
    assert_eq!(output, plain_output);
    assert_eq!(output, b"Hello World!\n".to_vec());
    assert_eq!(executor.cells()[..], plain_executor.cells()[..]);
    assert_eq!(executor.buffer_ptr(), plain_executor.buffer_ptr());
}

#[test]
fn input_that_runs_out_is_an_io_error() {
    let (executor, output, outcome) = run_source(b"+.,.,.", &[9]);
    match outcome {
        Err(ExecutionError::IoError(error)) => {
            assert_eq!(error.kind(), std::io::ErrorKind::UnexpectedEof);
        },
        other => panic!("expected an I/O error, got {:?}", other),
    }
    assert_eq!(output, vec![1u8, 9]);
    assert_eq!(executor.cells()[0], 9);
    // the machine still waits at the second input instruction
    assert_eq!(executor.instruction_ptr(), 4);
}

#[test]
fn budget_cuts_an_endless_loop() {
    let mut executor = Executor::new(parse(b"+[]"));
    let mut output = Vec::new();
    let outcome = executor.run(&[], &mut output, 1001);
    assert!(matches!(outcome, Ok(0)));
    assert!(!halted(&executor));
    assert_eq!(executor.cells()[0], 1);
    assert!(output.is_empty());
}

#[test]
fn empty_budget_only_prepares() {
    let mut executor = Executor::new(parse(b"++[-]"));
    let mut output = Vec::new();
    let outcome = executor.run(&[], &mut output, 0);
    assert!(matches!(outcome, Ok(0)));
    assert_eq!(executor.instruction_ptr(), 0);
    assert_eq!(executor.cells()[0], 0);
    assert_eq!(executor.instructions().len(), 4);
}

#[test]
fn output_is_appended_to_what_is_there() {
    let mut executor = Executor::new(parse(b"+++."));
    let mut output = vec![42u8];
    let outcome = executor.run(&[], &mut output, 100);
    assert!(matches!(outcome, Ok(0)));
    assert_eq!(output, vec![42u8, 3]);
}

#[test]
fn empty_program_halts_at_once() {
    let (executor, output, outcome) = run_source(b"no commands here", &[1, 2, 3]);
    assert!(matches!(outcome, Ok(0)));
    assert!(output.is_empty());
    assert!(halted(&executor));
    assert_eq!(executor.instructions().len(), 0);
}
