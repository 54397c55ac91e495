//! The instruction vocabulary and its mapping to and from source bytes.

use crate::error::Error;
use vstd::prelude::*;
use vstd::std_specs::convert::FromSpecImpl;
use vstd::std_specs::convert::TryFromSpecImpl;

verus! {

/// The byte `>`: one cell to the right.
pub const RIGHT: u8 = 0x3e;

/// The byte `<`: one cell to the left.
pub const LEFT: u8 = 0x3c;

/// The byte `+`: one more in the current cell.
pub const PLUS: u8 = 0x2b;

/// The byte `-`: one less in the current cell.
pub const MINUS: u8 = 0x2d;

/// The byte `.`: emit the current cell.
pub const DOT: u8 = 0x2e;

/// The byte `,`: read into the current cell.
pub const COMMA: u8 = 0x2c;

/// The byte `[`: open a loop.
pub const OPEN: u8 = 0x5b;

/// The byte `]`: close a loop.
pub const CLOSE: u8 = 0x5d;

/// One instruction of the machine.
#[derive(Clone, Copy, Debug, PartialEq, Eq, Structural, Hash)]
pub enum Instruction {
    /// Moves the tape pointer by the given signed distance (positive is rightward).
    Move(i64),
    /// Adds the given signed amount to the current cell.
    Add(i16),
    /// Emits the current cell.
    Output,
    /// Stores one byte of input in the current cell.
    Input,
    /// Opens a loop; holds the index of the matching `LoopEnd` once linked.
    LoopStart(Option<usize>),
    /// Closes a loop; holds the index of the matching `LoopStart` once linked.
    LoopEnd(Option<usize>),
}

/// The instruction that a source byte stands for, if it is one of the eight commands.
pub open spec fn decode(byte: u8) -> Option<Instruction> {
    if byte == RIGHT {
        Some(Instruction::Move(1))
    } else if byte == LEFT {
        Some(Instruction::Move(-1i64))
    } else if byte == PLUS {
        Some(Instruction::Add(1))
    } else if byte == MINUS {
        Some(Instruction::Add(-1i16))
    } else if byte == DOT {
        Some(Instruction::Output)
    } else if byte == COMMA {
        Some(Instruction::Input)
    } else if byte == OPEN {
        Some(Instruction::LoopStart(None))
    } else if byte == CLOSE {
        Some(Instruction::LoopEnd(None))
    } else {
        None
    }
}

/// The source byte that names an instruction's kind. A move or an addition is named by
/// its direction, with zero counted as forward; a bracket is named whatever it links to.
pub open spec fn symbol(instruction: Instruction) -> u8 {
    match instruction {
        Instruction::Move(amount) => if amount < 0 { LEFT } else { RIGHT },
        Instruction::Add(amount) => if amount < 0 { MINUS } else { PLUS },
        Instruction::Output => DOT,
        Instruction::Input => COMMA,
        Instruction::LoopStart(_) => OPEN,
        Instruction::LoopEnd(_) => CLOSE,
    }
}

impl Instruction {
    /// Whether this instruction opens a loop.
    pub open spec fn is_open(self) -> bool {
        self is LoopStart
    }

    /// Whether this instruction closes a loop.
    pub open spec fn is_close(self) -> bool {
        self is LoopEnd
    }

    /// The instruction for a source byte, or `None` for a byte that is no command.
    pub fn from_byte(byte: u8) -> (instruction: Option<Instruction>)
        ensures
            instruction == decode(byte),
    {
        if byte == RIGHT {
            Some(Instruction::Move(1))
        } else if byte == LEFT {
            Some(Instruction::Move(-1))
        } else if byte == PLUS {
            Some(Instruction::Add(1))
        } else if byte == MINUS {
            Some(Instruction::Add(-1))
        } else if byte == DOT {
            Some(Instruction::Output)
        } else if byte == COMMA {
            Some(Instruction::Input)
        } else if byte == OPEN {
            Some(Instruction::LoopStart(None))
        } else if byte == CLOSE {
            Some(Instruction::LoopEnd(None))
        } else {
            None
        }
    }
}

impl TryFrom<u8> for Instruction {
    type Error = Error;

    /// The strict reading of one byte: a byte that is no command is an error that
    /// carries the byte.
    fn try_from(byte: u8) -> (decoded: Result<Instruction, Error>) {
        match Instruction::from_byte(byte) {
            Some(instruction) => Ok(instruction),
            None => Err(Error::InvalidInstruction(byte)),
        }
    }
}

impl TryFromSpecImpl<u8> for Instruction {
    open spec fn obeys_try_from_spec() -> bool {
        true
    }

    open spec fn try_from_spec(byte: u8) -> Result<Instruction, Error> {
        match decode(byte) {
            Some(instruction) => Ok(instruction),
            None => Err(Error::InvalidInstruction(byte)),
        }
    }
}

impl From<Instruction> for u8 {
    fn from(instruction: Instruction) -> (byte: u8) {
        match instruction {
            Instruction::Move(amount) => if amount < 0 { LEFT } else { RIGHT },
            Instruction::Add(amount) => if amount < 0 { MINUS } else { PLUS },
            Instruction::Output => DOT,
            Instruction::Input => COMMA,
            Instruction::LoopStart(_) => OPEN,
            Instruction::LoopEnd(_) => CLOSE,
        }
    }
}

impl FromSpecImpl<Instruction> for u8 {
    open spec fn obeys_from_spec() -> bool {
        true
    }

    open spec fn from_spec(instruction: Instruction) -> u8 {
        symbol(instruction)
    }
}

/// Decoding a command byte and naming the result gives the byte back.
pub proof fn symbol_of_decoded(byte: u8)
    requires
        decode(byte) is Some,
    ensures
        symbol(decode(byte)->0) == byte,
{
}

} // verus!
