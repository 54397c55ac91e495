//! Reading source text: the command bytes become instructions, every other byte is a
//! comment and is passed over.

use crate::error::Error;
use crate::instruction::decode;
use crate::instruction::Instruction;
use vstd::prelude::*;

verus! {

/// The instructions that a source text stands for: its command bytes, in order, each
/// decoded; all other bytes leave no trace.
pub open spec fn parsed(source: Seq<u8>) -> Seq<Instruction> {
    source.filter_map(|byte: u8| decode(byte))
}

/// Whether an instruction is one that a single source byte decodes to: a step of one
/// cell, a change of one, an input, an output, or a bracket that is not linked yet.
pub open spec fn is_primitive(instruction: Instruction) -> bool {
    match instruction {
        Instruction::Move(amount) => amount == 1 || amount == -1,
        Instruction::Add(amount) => amount == 1 || amount == -1,
        Instruction::Output => true,
        Instruction::Input => true,
        Instruction::LoopStart(target) => target is None,
        Instruction::LoopEnd(target) => target is None,
    }
}

/// Reads a source text the permissive way. Nothing is rejected.
pub fn parse(source: &[u8]) -> (instructions: Vec<Instruction>)
    ensures
        instructions@ == parsed(source@),
{
    let mut instructions: Vec<Instruction> = Vec::new();
    let mut at: usize = 0;
    while at < source.len()
        invariant
            at <= source.len(),
            instructions@ == parsed(source@.take(at as int)),
        decreases source.len() - at,
    {
        proof {
            parsed_push(source@.take(at as int), source@[at as int]);
            assert(source@.take(at as int).push(source@[at as int]) =~= source@.take(at + 1));
        }
        match Instruction::from_byte(source[at]) {
            Some(instruction) => instructions.push(instruction),
            None => {},
        }
        at += 1;
    }
    proof {
        assert(source@.take(at as int) =~= source@);
    }
    instructions
}

/// The index of the first byte at or after `from` that is no command, or the length
/// of the text if there is none.
pub open spec fn first_comment(source: Seq<u8>, from: int) -> int
    decreases source.len() - from,
{
    if from >= source.len() {
        source.len() as int
    } else if decode(source[from]) is None {
        from
    } else {
        first_comment(source, from + 1)
    }
}

/// Reads a source text the strict way: a text that holds anything but commands is
/// rejected, with the first byte that is no command in the error.
pub fn parse_strict(source: &[u8]) -> (outcome: Result<Vec<Instruction>, Error>)
    ensures
        match outcome {
            Ok(instructions) => {
                &&& first_comment(source@, 0) == source@.len()
                &&& instructions@ == parsed(source@)
                &&& instructions@.len() == source@.len()
            },
            Err(error) => {
                &&& first_comment(source@, 0) < source@.len()
                &&& error == Error::InvalidInstruction(source@[first_comment(source@, 0)])
            },
        },
{
    let mut instructions: Vec<Instruction> = Vec::new();
    let mut at: usize = 0;
    while at < source.len()
        invariant
            at <= source.len(),
            instructions@ == parsed(source@.take(at as int)),
            instructions@.len() == at,
            first_comment(source@, 0) == first_comment(source@, at as int),
        decreases source.len() - at,
    {
        proof {
            parsed_push(source@.take(at as int), source@[at as int]);
            assert(source@.take(at as int).push(source@[at as int]) =~= source@.take(at + 1));
        }
        match Instruction::try_from(source[at]) {
            Ok(instruction) => instructions.push(instruction),
            Err(error) => {
                return Err(error);
            },
        }
        at += 1;
    }
    proof {
        assert(source@.take(at as int) =~= source@);
    }
    Ok(instructions)
}

/// Reading one more byte appends its instruction if it is a command and changes
/// nothing if it is not.
pub proof fn parsed_push(source: Seq<u8>, byte: u8)
    ensures
        parsed(source.push(byte)) == match decode(byte) {
            Some(instruction) => parsed(source).push(instruction),
            None => parsed(source),
        },
{
    let longer = source.push(byte);
    assert(longer.drop_last() =~= source);
    match decode(byte) {
        Some(instruction) => {
            assert(parsed(source) + seq![instruction] =~= parsed(source).push(instruction));
        },
        None => {},
    }
}

/// Reading two texts one after the other is reading their concatenation.
pub proof fn parsed_concat(front: Seq<u8>, back: Seq<u8>)
    ensures
        parsed(front + back) == parsed(front) + parsed(back),
    decreases back.len(),
{
    if back.len() == 0 {
        assert(front + back =~= front);
        assert(parsed(front) + parsed(back) =~= parsed(front));
    } else {
        let shorter = back.drop_last();
        parsed_concat(front, shorter);
        parsed_push(front + shorter, back.last());
        parsed_push(shorter, back.last());
        assert((front + shorter).push(back.last()) =~= front + back);
        assert(shorter.push(back.last()) =~= back);
        match decode(back.last()) {
            Some(instruction) => {
                assert((parsed(front) + parsed(shorter)).push(instruction) =~= parsed(front)
                    + parsed(shorter).push(instruction));
            },
            None => {},
        }
    }
}

/// A byte that is no command can be put anywhere into a source text without changing
/// the instructions read from it.
pub proof fn comment_is_ignored(source: Seq<u8>, at: int, byte: u8)
    requires
        0 <= at <= source.len(),
        decode(byte) is None,
    ensures
        parsed(source.insert(at, byte)) == parsed(source),
{
    let front = source.take(at);
    let back = source.skip(at);
    assert(source.insert(at, byte) =~= front.push(byte) + back);
    assert(source =~= front + back);
    parsed_concat(front.push(byte), back);
    parsed_concat(front, back);
    parsed_push(front, byte);
}

/// Every instruction read from source text is primitive, and there are at most as
/// many instructions as bytes.
pub proof fn parsed_is_primitive(source: Seq<u8>)
    ensures
        parsed(source).len() <= source.len(),
        forall|k: int| 0 <= k < parsed(source).len() ==> is_primitive(#[trigger] parsed(source)[k]),
    decreases source.len(),
{
    if source.len() > 0 {
        parsed_is_primitive(source.drop_last());
        parsed_push(source.drop_last(), source.last());
        assert(source.drop_last().push(source.last()) =~= source);
    }
}

} // verus!
