use tape_vm::error::ExecutionError;
use tape_vm::executor::Executor;
use tape_vm::instruction::Instruction;
use tape_vm::parser::parse;

fn optimized(instructions: Vec<Instruction>) -> Vec<Instruction> {
    let mut executor = Executor::new(instructions);
    executor.optimize();
    executor.instructions().clone()
}

fn run_plain(source: &[u8], input: &[u8], budget: usize) -> (Executor, Vec<u8>, Result<usize, ExecutionError>) {
    let mut executor = Executor::new(parse(source));
    let mut output = Vec::new();
    let outcome = match executor.fill_loops() {
        Ok(()) => executor.execute(input, &mut output, budget),
        Err(error) => Err(error),
    };
    (executor, output, outcome)
}

fn run_fused(source: &[u8], input: &[u8], budget: usize) -> (Executor, Vec<u8>, Result<usize, ExecutionError>) {
    let mut executor = Executor::new(parse(source));
    let mut output = Vec::new();
    let outcome = executor.run(input, &mut output, budget);
    (executor, output, outcome)
}

#[test]
fn runs_collapse_to_their_sum() {
    assert_eq!(
        optimized(parse(b"+++>>>>--<<.")),
        vec![
            Instruction::Add(3),
            Instruction::Move(4),
            Instruction::Add(-2),
            Instruction::Move(-2),
            Instruction::Output,
        ]
    );
}

#[test]
fn net_zero_run_is_kept() {
    assert_eq!(optimized(parse(b"+-")), vec![Instruction::Add(0)]);
    assert_eq!(optimized(parse(b"><")), vec![Instruction::Move(0)]);
    assert_eq!(
        optimized(parse(b"+-><-+")),
        vec![Instruction::Add(0), Instruction::Move(0), Instruction::Add(0)]
    );
}

#[test]
fn other_instructions_are_left_in_order() {
    assert_eq!(optimized(parse(b"..,,[[]]")), parse(b"..,,[[]]"));
    assert_eq!(
        optimized(parse(b"+[+]+")),
        vec![
            Instruction::Add(1),
            Instruction::LoopStart(None),
            Instruction::Add(1),
            Instruction::LoopEnd(None),
            Instruction::Add(1),
        ]
    );
}

#[test]
fn separated_runs_do_not_merge() {
    assert_eq!(
        optimized(parse(b"++.++")),
        vec![Instruction::Add(2), Instruction::Output, Instruction::Add(2)]
    );
    assert_eq!(
        optimized(parse(b">+>")),
        vec![Instruction::Move(1), Instruction::Add(1), Instruction::Move(1)]
    );
}

#[test]
fn empty_and_single_programs_are_unchanged() {
    assert_eq!(optimized(Vec::new()), Vec::<Instruction>::new());
    assert_eq!(optimized(vec![Instruction::Input]), vec![Instruction::Input]);
    assert_eq!(optimized(vec![Instruction::Add(-1)]), vec![Instruction::Add(-1)]);
}

#[test]
fn weighted_instructions_merge_too() {
    assert_eq!(
        optimized(vec![
            Instruction::Move(40_000),
            Instruction::Move(-10),
            Instruction::Add(300),
            Instruction::Add(-1),
            Instruction::Add(5),
        ]),
        vec![Instruction::Move(39_990), Instruction::Add(304)]
    );
}

#[test]
fn brackets_keep_their_targets_through_fusion() {
    assert_eq!(
        optimized(vec![
            Instruction::LoopStart(Some(3)),
            Instruction::Add(1),
            Instruction::Add(1),
            Instruction::LoopEnd(Some(0)),
        ]),
        vec![Instruction::LoopStart(Some(3)), Instruction::Add(2), Instruction::LoopEnd(Some(0))]
    );
}

#[test]
fn sum_that_does_not_fit_is_not_merged() {
    assert_eq!(
        optimized(vec![Instruction::Add(i16::MAX), Instruction::Add(1), Instruction::Add(1)]),
        vec![Instruction::Add(i16::MAX), Instruction::Add(2)]
    );
    assert_eq!(
        optimized(vec![Instruction::Add(i16::MIN), Instruction::Add(-1)]),
        vec![Instruction::Add(i16::MIN), Instruction::Add(-1)]
    );
    assert_eq!(
        optimized(vec![Instruction::Move(i64::MAX), Instruction::Move(1)]),
        vec![Instruction::Move(i64::MAX), Instruction::Move(1)]
    );
    assert_eq!(
        optimized(vec![Instruction::Move(i64::MIN), Instruction::Move(-1), Instruction::Move(1)]),
        vec![Instruction::Move(i64::MIN), Instruction::Move(0)]
    );
    assert_eq!(
        optimized(vec![Instruction::Move(i64::MAX), Instruction::Move(-1)]),
        vec![Instruction::Move(i64::MAX - 1)]
    );
}

#[test]
fn long_run_of_additions_splits_where_the_amount_is_full() {
    let source = vec![b'+'; 40_000];
    assert_eq!(
        optimized(parse(&source)),
        vec![Instruction::Add(i16::MAX), Instruction::Add(7_233)]
    );
    let (executor, _, outcome) = run_fused(&source, &[], 10);
    assert!(matches!(outcome, Ok(0)));
    assert_eq!(executor.cells()[0], (40_000 % 256) as u8);
}

#[test]
fn optimizing_leaves_the_machine_alone() {
    let mut executor = Executor::new(parse(b"+>++"));
    let mut output = Vec::new();
    assert!(matches!(executor.execute(&[], &mut output, 2), Ok(0)));
    executor.optimize();
    assert_eq!(executor.instruction_ptr(), 2);
    assert_eq!(executor.buffer_ptr(), 1);
    assert_eq!(executor.cells()[0], 1);
    assert_eq!(
        executor.instructions().clone(),
        vec![Instruction::Add(1), Instruction::Move(1), Instruction::Add(2)]
    );
}

#[test]
fn optimizing_twice_is_optimizing_once() {
    let once = optimized(parse(b"++[>>+++<<-]>>.--,[-]"));
    assert_eq!(optimized(once.clone()), once);
}

#[test]
fn fused_and_plain_runs_agree() {
    let programs: [&[u8]; 10] = [
        b"",
        b"++.",
        b",.",
        b"+[-]",
        b"+++[>++<-]>.",
        b",[.,]",
        b"<<<-->>>+-+-.<.>>.",
        b",>,<[->+<]>.",
        b"++++++++[>++++[>++>+++>+++>+<<<<-]>+>+>->>+[<]<-]>>.>---.+++++++..+++.>>.<-.<.+++.------.--------.>>+.>++.",
        b">++++++++[<+++++++++>-]<.>++++[<+++++++>-]<+.+++++++..+++.>>++++++[<+++++++>-]<++.------------.>++++++[<+++++++++>-]<+.<.+++.------.--------.>>>++++[<++++++++>-]<+.",
    ];
    let inputs: [&[u8]; 4] = [b"", b"A", b"hello", &[0, 255, 1, 2, 3]];
    for program in programs.iter() {
        for input in inputs.iter() {
            let (plain, plain_output, plain_outcome) = run_plain(program, input, 1_000_000);
            let (fused, fused_output, fused_outcome) = run_fused(program, input, 1_000_000);
            assert_eq!(fused_output, plain_output);
            assert_eq!(fused.cells()[..], plain.cells()[..]);
            assert_eq!(fused.buffer_ptr(), plain.buffer_ptr());
            match (plain_outcome, fused_outcome) {
                (Ok(plain_consumed), Ok(fused_consumed)) => {
                    assert_eq!(plain_consumed, fused_consumed);
                    assert!(plain.instruction_ptr() >= plain.instructions().len());
                    assert!(fused.instruction_ptr() >= fused.instructions().len());
                },
                (Err(ExecutionError::IoError(_)), Err(ExecutionError::IoError(_))) => {},
                (plain_outcome, fused_outcome) => {
                    panic!("the runs end differently: {:?} and {:?}", plain_outcome, fused_outcome)
                },
            }
        }
    }
}

#[test]
fn fused_and_plain_runs_agree_on_generated_programs() {
    let alphabet = b"+-<>.,[]+-<>";
    let mut seed: u64 = 0x2545_f491_4f6c_dd1d;
    let mut compared = 0;
    for _ in 0..400 {
        let mut source: Vec<u8> = Vec::new();
        let mut open = 0;
        for _ in 0..40 {
            seed ^= seed << 13;
            seed ^= seed >> 7;
            seed ^= seed << 17;
            let byte = alphabet[(seed % alphabet.len() as u64) as usize];
            if byte == b']' {
                if open == 0 {
                    continue;
                }
                open -= 1;
            }
            if byte == b'[' {
                open += 1;
            }
            source.push(byte);
        }
        for _ in 0..open {
            source.push(b']');
        }
        let input = [3u8, 1, 4, 1, 5, 9, 2, 6];
        let (plain, plain_output, plain_outcome) = run_plain(&source, &input, 20_000);
        if plain_outcome.is_ok() && plain.instruction_ptr() < plain.instructions().len() {
            // still running when the budget was spent: the two runs need not be abreast
            continue;
        }
        let (fused, fused_output, fused_outcome) = run_fused(&source, &input, 20_000);
        assert_eq!(fused_output, plain_output);
        assert_eq!(fused.cells()[..], plain.cells()[..]);
        assert_eq!(fused.buffer_ptr(), plain.buffer_ptr());
        assert_eq!(plain_outcome.is_ok(), fused_outcome.is_ok());
        if let (Ok(plain_consumed), Ok(fused_consumed)) = (plain_outcome, fused_outcome) {
            assert_eq!(plain_consumed, fused_consumed);
            assert!(fused.instruction_ptr() >= fused.instructions().len());
        }
        compared += 1;
    }
    assert!(compared > 100);
}

#[test]
fn fused_and_plain_programs_are_rejected_alike() {
    let programs: [&[u8]; 5] = [b"]", b"[", b"++]--", b"+[+[-]", b"++[--]>>]"];
    for program in programs.iter() {
        let (_, plain_output, plain_outcome) = run_plain(program, b"x", 1000);
        let (_, fused_output, fused_outcome) = run_fused(program, b"x", 1000);
        assert!(matches!(plain_outcome, Err(ExecutionError::UnexpectedBracket(_))));
        assert!(matches!(fused_outcome, Err(ExecutionError::UnexpectedBracket(_))));
        assert!(plain_output.is_empty());
        assert!(fused_output.is_empty());
    }
    let (_, _, plain_outcome) = run_plain(b"++]--", b"", 1000);
    let (_, _, fused_outcome) = run_fused(b"++]--", b"", 1000);
    assert!(matches!(plain_outcome, Err(ExecutionError::UnexpectedBracket(2))));
    assert!(matches!(fused_outcome, Err(ExecutionError::UnexpectedBracket(1))));
}
