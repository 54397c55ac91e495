//! What a program means: the effect of one instruction on the machine's state, and of
//! a run of instructions on the state and on the streams of input and output.

use crate::instruction::Instruction;
use vstd::prelude::*;

verus! {

/// The number of cells on the tape.
pub const TAPE_LEN: usize = 30_000;

/// The part of a machine that a run changes.
pub struct State {
    /// The cells.
    pub tape: Seq<u8>,
    /// The index of the current cell.
    pub pointer: int,
    /// The index of the instruction to execute next.
    pub counter: int,
}

/// What the machine needs from its surroundings after a step.
#[derive(Clone, Copy, Debug, PartialEq, Eq, Structural)]
pub enum Action {
    /// Nothing: an instruction was executed.
    Continue,
    /// An output instruction was executed, and this value is to be emitted.
    Write(u8),
    /// The next instruction is an input instruction: nothing was executed, and a byte
    /// is to be fed.
    Read,
    /// Nothing: the program has ended.
    Halt,
}

/// The position `amount` cells away from `pointer`, round the tape in either direction.
pub open spec fn shifted(pointer: int, amount: int) -> int {
    (pointer + amount) % (TAPE_LEN as int)
}

/// The value of a cell after `amount` is added to it, round the 256 values in either
/// direction.
pub open spec fn raised(cell: u8, amount: int) -> u8 {
    ((cell + amount) % 256) as u8
}

/// Where a taken jump to the bracket at `target` continues: behind that bracket. A
/// target outside the program ends the run.
pub open spec fn landing(program: Seq<Instruction>, target: usize) -> int {
    if target < program.len() {
        target + 1
    } else {
        program.len() as int
    }
}

/// The state before the first instruction: all cells zero, both pointers at the start.
pub open spec fn initial() -> State {
    State { tape: Seq::new(TAPE_LEN as nat, |cell: int| 0u8), pointer: 0, counter: 0 }
}

/// Whether a state is one that a machine can be in: the tape has its full length and
/// the pointer is on it.
pub open spec fn on_tape(state: State) -> bool {
    state.tape.len() == TAPE_LEN && 0 <= state.pointer < TAPE_LEN
}

/// Whether the run is over: the counter is not on an instruction.
pub open spec fn halted(program: Seq<Instruction>, state: State) -> bool {
    !(0 <= state.counter < program.len())
}

/// Whether the machine waits for a byte of input.
pub open spec fn awaits_input(program: Seq<Instruction>, state: State) -> bool {
    !halted(program, state) && program[state.counter] is Input
}

/// The state after one step. A halted machine and one that waits for input stay as
/// they are; a bracket that is not linked does nothing.
pub open spec fn step_state(program: Seq<Instruction>, state: State) -> State {
    if halted(program, state) {
        state
    } else {
        let cell = state.tape[state.pointer];
        let onward = state.counter + 1;
        match program[state.counter] {
            Instruction::Move(amount) => State {
                pointer: shifted(state.pointer, amount as int),
                counter: onward,
                ..state
            },
            Instruction::Add(amount) => State {
                tape: state.tape.update(state.pointer, raised(cell, amount as int)),
                counter: onward,
                ..state
            },
            Instruction::Output => State { counter: onward, ..state },
            Instruction::Input => state,
            Instruction::LoopStart(Some(target)) => State {
                counter: if cell == 0 {
                    landing(program, target)
                } else {
                    onward
                },
                ..state
            },
            Instruction::LoopEnd(Some(target)) => State {
                counter: if cell != 0 {
                    landing(program, target)
                } else {
                    onward
                },
                ..state
            },
            Instruction::LoopStart(None) => State { counter: onward, ..state },
            Instruction::LoopEnd(None) => State { counter: onward, ..state },
        }
    }
}

/// What one step asks of the surroundings.
pub open spec fn step_action(program: Seq<Instruction>, state: State) -> Action {
    if halted(program, state) {
        Action::Halt
    } else {
        match program[state.counter] {
            Instruction::Output => Action::Write(state.tape[state.pointer]),
            Instruction::Input => Action::Read,
            _ => Action::Continue,
        }
    }
}

/// The state after a byte is fed to a machine that waits for input: the byte is in
/// the current cell and the input instruction is done. A machine that does not wait
/// stays as it is.
pub open spec fn fed_state(program: Seq<Instruction>, state: State, byte: u8) -> State {
    if awaits_input(program, state) {
        State {
            tape: state.tape.update(state.pointer, byte),
            counter: state.counter + 1,
            ..state
        }
    } else {
        state
    }
}

/// A run against a stream of input: the machine's state, how many bytes of input it
/// has consumed, what it has emitted, and whether it has asked for a byte that the
/// input did not have.
pub struct Progress {
    /// The machine's state.
    pub state: State,
    /// The number of input bytes consumed.
    pub consumed: int,
    /// The values emitted, in order.
    pub output: Seq<u8>,
    /// Whether the run failed for want of input.
    pub starved: bool,
}

/// A run that has not begun, on a machine in the given state.
pub open spec fn begin(state: State, output: Seq<u8>) -> Progress {
    Progress { state, consumed: 0, output, starved: false }
}

/// Whether nothing more will happen: the program has ended or the run has starved.
pub open spec fn settled(program: Seq<Instruction>, progress: Progress) -> bool {
    progress.starved || halted(program, progress.state)
}

/// What can be seen of a run from outside: everything but the program and the place
/// in it.
pub struct Observation {
    /// The cells.
    pub tape: Seq<u8>,
    /// The index of the current cell.
    pub pointer: int,
    /// The number of input bytes consumed.
    pub consumed: int,
    /// The values emitted, in order.
    pub output: Seq<u8>,
    /// Whether the run failed for want of input.
    pub starved: bool,
    /// Whether the program has ended.
    pub halted: bool,
}

/// What can be seen of a run of the given program.
pub open spec fn observed(program: Seq<Instruction>, progress: Progress) -> Observation {
    Observation {
        tape: progress.state.tape,
        pointer: progress.state.pointer,
        consumed: progress.consumed,
        output: progress.output,
        starved: progress.starved,
        halted: halted(program, progress.state),
    }
}

/// The run one instruction further on. An input instruction takes the next byte of
/// `input`, and fails the run for good if there is none; an output instruction
/// appends to the output.
pub open spec fn run_step(program: Seq<Instruction>, input: Seq<u8>, progress: Progress) -> Progress {
    if progress.starved {
        progress
    } else {
        match step_action(program, progress.state) {
            Action::Continue => Progress {
                state: step_state(program, progress.state),
                ..progress
            },
            Action::Write(value) => Progress {
                state: step_state(program, progress.state),
                output: progress.output.push(value),
                ..progress
            },
            Action::Read => if 0 <= progress.consumed < input.len() {
                Progress {
                    state: fed_state(program, progress.state, input[progress.consumed]),
                    consumed: progress.consumed + 1,
                    ..progress
                }
            } else {
                Progress { starved: true, ..progress }
            },
            Action::Halt => progress,
        }
    }
}

/// The run `steps` instructions further on.
pub open spec fn run_steps(
    program: Seq<Instruction>,
    input: Seq<u8>,
    progress: Progress,
    steps: nat,
) -> Progress
    decreases steps,
{
    if steps == 0 {
        progress
    } else {
        run_step(program, input, run_steps(program, input, progress, (steps - 1) as nat))
    }
}

/// Running on in two stretches is running on by their sum.
pub proof fn run_steps_add(
    program: Seq<Instruction>,
    input: Seq<u8>,
    progress: Progress,
    first: nat,
    second: nat,
)
    ensures
        run_steps(program, input, run_steps(program, input, progress, first), second)
            == run_steps(program, input, progress, first + second),
    decreases second,
{
    if second > 0 {
        run_steps_add(program, input, progress, first, (second - 1) as nat);
    }
}

/// A settled run stays as it is, however long it is run on.
pub proof fn settled_stays(
    program: Seq<Instruction>,
    input: Seq<u8>,
    progress: Progress,
    steps: nat,
)
    requires
        settled(program, progress),
    ensures
        run_steps(program, input, progress, steps) == progress,
    decreases steps,
{
    if steps > 0 {
        settled_stays(program, input, progress, (steps - 1) as nat);
    }
}

/// Two shifts in a row are one shift by the sum.
pub proof fn shifted_twice(pointer: int, first: int, second: int)
    ensures
        shifted(shifted(pointer, first), second) == shifted(pointer, first + second),
{
    assert(((pointer + first) % 30_000 + second) % 30_000 == (pointer + first + second) % 30_000)
        by (nonlinear_arith);
}

/// Two additions in a row are one addition of the sum.
pub proof fn raised_twice(cell: u8, first: int, second: int)
    ensures
        raised(raised(cell, first), second) == raised(cell, first + second),
{
    assert(((cell + first) % 256 + second) % 256 == (cell + first + second) % 256)
        by (nonlinear_arith);
}

/// Moves a tape position by a signed distance, round the tape.
pub fn shift(pointer: usize, amount: i64) -> (position: usize)
    ensures
        position == shifted(pointer as int, amount as int),
        position < TAPE_LEN,
{
    let wide: i128 = pointer as i128 + amount as i128;
    let position: i128 = wide.checked_rem_euclid(30_000).unwrap();
    position as usize
}

/// Adds a signed amount to a cell's value, round the 256 values.
pub fn raise(cell: u8, amount: i16) -> (value: u8)
    ensures
        value == raised(cell, amount as int),
{
    let wide: i32 = cell as i32 + amount as i32;
    let value: i32 = wide.checked_rem_euclid(256).unwrap();
    value as u8
}

} // verus!
