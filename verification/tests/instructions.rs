use tape_vm::error::Error;
use tape_vm::error::ExecutionError;
use tape_vm::instruction::Instruction;
use tape_vm::parser::parse;
use tape_vm::parser::parse_strict;

#[test]
fn each_command_byte_decodes() {
    assert_eq!(Instruction::from_byte(b'>'), Some(Instruction::Move(1)));
    assert_eq!(Instruction::from_byte(b'<'), Some(Instruction::Move(-1)));
    assert_eq!(Instruction::from_byte(b'+'), Some(Instruction::Add(1)));
    assert_eq!(Instruction::from_byte(b'-'), Some(Instruction::Add(-1)));
    assert_eq!(Instruction::from_byte(b'.'), Some(Instruction::Output));
    assert_eq!(Instruction::from_byte(b','), Some(Instruction::Input));
    assert_eq!(Instruction::from_byte(b'['), Some(Instruction::LoopStart(None)));
    assert_eq!(Instruction::from_byte(b']'), Some(Instruction::LoopEnd(None)));
}

#[test]
fn exactly_eight_bytes_are_commands() {
    let mut commands = 0;
    for byte in 0..=255u8 {
        let strict = Instruction::try_from(byte);
        match Instruction::from_byte(byte) {
            Some(instruction) => {
                commands += 1;
                assert!(b"><+-.,[]".contains(&byte));
                assert!(matches!(strict, Ok(found) if found == instruction));
                assert_eq!(u8::from(instruction), byte);
            },
            None => {
                assert!(!b"><+-.,[]".contains(&byte));
                assert!(matches!(strict, Err(Error::InvalidInstruction(found)) if found == byte));
            },
        }
    }
    assert_eq!(commands, 8);
}

#[test]
fn strict_reading_rejects_a_comment_byte() {
    assert!(matches!(Instruction::try_from(b'x'), Err(Error::InvalidInstruction(b'x'))));
    assert!(matches!(Instruction::try_from(0u8), Err(Error::InvalidInstruction(0))));
    assert!(matches!(Instruction::try_from(b'+'), Ok(Instruction::Add(1))));
}

#[test]
fn symbol_goes_by_kind_and_direction() {
    assert_eq!(u8::from(Instruction::Move(7)), b'>');
    assert_eq!(u8::from(Instruction::Move(0)), b'>');
    assert_eq!(u8::from(Instruction::Move(-30_000)), b'<');
    assert_eq!(u8::from(Instruction::Add(255)), b'+');
    assert_eq!(u8::from(Instruction::Add(0)), b'+');
    assert_eq!(u8::from(Instruction::Add(-2)), b'-');
    assert_eq!(u8::from(Instruction::Output), b'.');
    assert_eq!(u8::from(Instruction::Input), b',');
    assert_eq!(u8::from(Instruction::LoopStart(Some(12))), b'[');
    assert_eq!(u8::from(Instruction::LoopStart(None)), b'[');
    assert_eq!(u8::from(Instruction::LoopEnd(Some(3))), b']');
    assert_eq!(u8::from(Instruction::LoopEnd(None)), b']');
}

#[test]
fn parse_keeps_commands_in_order() {
    assert_eq!(
        parse(b"a>b<c+d-e.f,g[h]i"),
        vec![
            Instruction::Move(1),
            Instruction::Move(-1),
            Instruction::Add(1),
            Instruction::Add(-1),
            Instruction::Output,
            Instruction::Input,
            Instruction::LoopStart(None),
            Instruction::LoopEnd(None),
        ]
    );
}

#[test]
fn parse_of_nothing_is_nothing() {
    assert_eq!(parse(b""), Vec::<Instruction>::new());
    assert_eq!(parse(b"hello, world".iter().filter(|b| **b != b',').cloned().collect::<Vec<u8>>().as_slice()), Vec::<Instruction>::new());
    assert_eq!(parse(&[0, 255, 10, 13, 32]), Vec::<Instruction>::new());
}

#[test]
fn parse_of_two_texts_joins() {
    let front: &[u8] = b"+[ first ";
    let back: &[u8] = b" second -]";
    let mut joined = front.to_vec();
    joined.extend_from_slice(back);
    let mut expected = parse(front);
    expected.extend(parse(back));
    assert_eq!(parse(&joined), expected);
}

#[test]
fn execution_error_converts_to_error() {
    let wrapped = Error::from(ExecutionError::UnexpectedBracket(5));
    assert!(matches!(wrapped, Error::ExecutionError(ExecutionError::UnexpectedBracket(5))));
    let wrapped: Error = ExecutionError::IoError(std::io::Error::from(std::io::ErrorKind::BrokenPipe)).into();
    match wrapped {
        Error::ExecutionError(ExecutionError::IoError(error)) => {
            assert_eq!(error.kind(), std::io::ErrorKind::BrokenPipe);
        },
        other => panic!("expected an I/O error, got {:?}", other),
    }
}

#[test]
fn source_file_error_holds_its_reason() {
    let error = Error::SourceFileError("no source file specified");
    assert!(matches!(error, Error::SourceFileError("no source file specified")));
}

#[test]
fn strict_parse_accepts_pure_commands() {
    match parse_strict(b"+[->+<].,") {
        Ok(instructions) => assert_eq!(instructions, parse(b"+[->+<].,")),
        Err(error) => panic!("rejected: {:?}", error),
    }
    assert!(matches!(parse_strict(b""), Ok(instructions) if instructions.is_empty()));
}

#[test]
fn strict_parse_names_the_first_offending_byte() {
    assert!(matches!(parse_strict(b"++ --x"), Err(Error::InvalidInstruction(b' '))));
    assert!(matches!(parse_strict(b"++\n"), Err(Error::InvalidInstruction(b'\n'))));
    assert!(matches!(parse_strict(b"a+b"), Err(Error::InvalidInstruction(b'a'))));
    assert!(matches!(parse_strict(b"[]]b\xffa"), Err(Error::InvalidInstruction(b'b'))));
}
