//! The machine: a program, a tape of cells, and the two pointers into them.

use crate::brackets::balanced;
use crate::brackets::balanced_iff_faultless;
use crate::brackets::fault;
use crate::brackets::first_stray;
use crate::brackets::linked;
use crate::brackets::linked_is_mutual;
use crate::brackets::linked_upto;
use crate::brackets::pending;
use crate::brackets::pending_advances;
use crate::brackets::pending_begins;
use crate::brackets::pending_closes;
use crate::brackets::pending_ends;
use crate::brackets::pending_strays;
use crate::brackets::well_linked;
use crate::equivalence::fusion_keeps_balance;
use crate::error::ExecutionError;
use crate::fusion::fused;
use crate::fusion::fused_push;
use crate::instruction::Instruction;
use crate::semantics::Action;
use crate::semantics::awaits_input;
use crate::semantics::begin;
use crate::semantics::fed_state;
use crate::semantics::initial;
use crate::semantics::landing;
use crate::semantics::Progress;
use crate::semantics::raise;
use crate::semantics::run_step;
use crate::semantics::run_steps;
use crate::semantics::run_steps_add;
use crate::semantics::settled_stays;
use crate::semantics::shift;
use crate::semantics::State;
use crate::semantics::step_action;
use crate::semantics::step_state;
use crate::semantics::TAPE_LEN;
use vstd::prelude::*;

verus! {

/// A machine with its program loaded.
#[derive(Debug)]
pub struct Executor {
    instructions: Vec<Instruction>,
    buffer: [u8; 30_000],
    buffer_ptr: usize,
    instruction_ptr: usize,
}

impl Executor {
    #[verifier::type_invariant]
    spec fn pointer_on_tape(self) -> bool {
        self.buffer_ptr < TAPE_LEN
    }

    /// The instruction sequence.
    pub closed spec fn program(self) -> Seq<Instruction> {
        self.instructions@
    }

    /// The cells of the tape.
    pub closed spec fn tape(self) -> Seq<u8> {
        self.buffer@
    }

    /// The index of the current cell.
    pub closed spec fn pointer(self) -> int {
        self.buffer_ptr as int
    }

    /// The index of the instruction to execute next.
    pub closed spec fn counter(self) -> int {
        self.instruction_ptr as int
    }

    /// What a run changes: the tape and the two pointers.
    pub open spec fn state(self) -> State {
        State { tape: self.tape(), pointer: self.pointer(), counter: self.counter() }
    }

    /// A machine at rest: the given program, every cell zero, both pointers at the
    /// start.
    pub fn new(instructions: Vec<Instruction>) -> (executor: Executor)
        ensures
            executor.program() == instructions@,
            executor.state() == initial(),
    {
        let executor = Executor {
            instructions,
            buffer: [0u8; 30_000],
            buffer_ptr: 0,
            instruction_ptr: 0,
        };
        assert(executor.buffer@ =~= Seq::new(TAPE_LEN as nat, |cell: int| 0u8));
        executor
    }

    /// Fuses runs of moves and runs of additions, replacing the program by its fused
    /// form. To be done before the brackets are linked: it shifts the instructions.
    pub fn optimize(&mut self)
        ensures
            final(self).program() == fused(old(self).program()),
            final(self).tape() == old(self).tape(),
            final(self).pointer() == old(self).pointer(),
            final(self).counter() == old(self).counter(),
    {
        let mut optimized: Vec<Instruction> = Vec::with_capacity(self.instructions.len());
        let mut instruction_ptr: usize = 0;
        let mut previous_instruction: Option<Instruction> = None;
        while instruction_ptr < self.instructions.len()
            invariant
                instruction_ptr <= self.instructions.len(),
                match previous_instruction {
                    None => instruction_ptr == 0 && optimized@.len() == 0,
                    Some(previous) => optimized@.push(previous) == fused(
                        self.instructions@.take(instruction_ptr as int),
                    ),
                },
            decreases self.instructions.len() - instruction_ptr,
        {
            let instruction = self.instructions[instruction_ptr];
            proof {
                let read = self.instructions@.take(instruction_ptr as int);
                fused_push(read, instruction);
                assert(read.push(instruction) =~= self.instructions@.take(instruction_ptr + 1));
                if let Some(previous) = previous_instruction {
                    assert(optimized@.push(previous).drop_last() =~= optimized@);
                }
            }
            match previous_instruction {
                None => {
                    previous_instruction = Some(instruction);
                },
                Some(previous) => match previous.merge(instruction) {
                    Some(fusion) => {
                        previous_instruction = Some(fusion);
                    },
                    None => {
                        optimized.push(previous);
                        previous_instruction = Some(instruction);
                    },
                },
            }
            instruction_ptr += 1;
        }
        proof {
            assert(self.instructions@.take(instruction_ptr as int) =~= self.instructions@);
        }
        if let Some(previous) = previous_instruction {
            optimized.push(previous);
        }
        proof {
            use_type_invariant(&*self);
        }
        self.instructions = optimized;
    }

    /// Links every loop bracket to its partner, in place, in one pass from left to
    /// right. The pass stops at the first closing bracket without a partner and
    /// reports it; an opening bracket without a partner is found at the end, and the
    /// innermost such bracket is reported. The pairs completed before the pass stopped
    /// stay linked.
    pub fn fill_loops(&mut self) -> (outcome: Result<(), ExecutionError>)
        ensures
            final(self).tape() == old(self).tape(),
            final(self).pointer() == old(self).pointer(),
            final(self).counter() == old(self).counter(),
            final(self).program() == linked_upto(
                old(self).program(),
                first_stray(old(self).program(), 0),
            ),
            match fault(old(self).program()) {
                None => outcome is Ok,
                Some(at) => outcome matches Err(ExecutionError::UnexpectedBracket(index)) && index
                    == at,
            },
            outcome is Ok <==> balanced(old(self).program()),
            outcome is Ok ==> final(self).program() == linked(old(self).program()),
            outcome is Ok ==> well_linked(final(self).program()),
    {
        let ghost program = self.instructions@;
        let mut instruction_ptr: usize = 0;
        let mut stack: Vec<usize> = Vec::new();
        proof {
            use_type_invariant(&*self);
            pending_begins(program);
        }
        while instruction_ptr < self.instructions.len()
            invariant
                self.buffer_ptr < TAPE_LEN,
                self.buffer == old(self).buffer,
                self.buffer_ptr == old(self).buffer_ptr,
                self.instruction_ptr == old(self).instruction_ptr,
                program == old(self).instructions@,
                self.instructions@ == linked_upto(program, instruction_ptr as int),
                pending(program, stack@, instruction_ptr as int),
            decreases self.instructions.len() - instruction_ptr,
        {
            match self.instructions[instruction_ptr] {
                Instruction::LoopStart(_) => {
                    proof {
                        pending_advances(program, stack@, instruction_ptr as int);
                    }
                    stack.push(instruction_ptr);
                },
                Instruction::LoopEnd(_) => {
                    let ghost waiting = stack@;
                    if let Some(loop_start) = stack.pop() {
                        proof {
                            pending_closes(program, waiting, instruction_ptr as int);
                        }
                        self.instructions[loop_start] = Instruction::LoopStart(
                            Some(instruction_ptr),
                        );
                        self.instructions[instruction_ptr] = Instruction::LoopEnd(
                            Some(loop_start),
                        );
                    } else {
                        proof {
                            pending_strays(program, stack@, instruction_ptr as int);
                            balanced_iff_faultless(program);
                        }
                        return Err(ExecutionError::UnexpectedBracket(instruction_ptr));
                    }
                },
                _ => {
                    proof {
                        pending_advances(program, stack@, instruction_ptr as int);
                    }
                },
            }
            instruction_ptr += 1;
        }
        proof {
            pending_ends(program, stack@);
            balanced_iff_faultless(program);
        }
        if let Some(position) = stack.pop() {
            return Err(ExecutionError::UnexpectedBracket(position));
        }
        proof {
            linked_is_mutual(program);
        }
        Ok(())
    }

    /// Executes the instruction under the counter, unless it is an input
    /// instruction or the program has ended, and says what the surroundings are to
    /// do: emit a value, feed a byte, or nothing.
    pub fn step(&mut self) -> (action: Action)
        ensures
            final(self).program() == old(self).program(),
            final(self).state() == step_state(old(self).program(), old(self).state()),
            action == step_action(old(self).program(), old(self).state()),
    {
        proof {
            use_type_invariant(&*self);
        }
        if self.instruction_ptr >= self.instructions.len() {
            return Action::Halt;
        }
        let cell = self.buffer[self.buffer_ptr];
        let mut action = Action::Continue;
        let mut onward: usize = self.instruction_ptr + 1;
        match self.instructions[self.instruction_ptr] {
            Instruction::Move(amount) => {
                self.buffer_ptr = shift(self.buffer_ptr, amount);
            },
            Instruction::Add(amount) => {
                self.buffer[self.buffer_ptr] = raise(cell, amount);
            },
            Instruction::Output => {
                action = Action::Write(cell);
            },
            Instruction::Input => {
                return Action::Read;
            },
            Instruction::LoopStart(Some(loop_end)) => {
                if cell == 0 {
                    onward = self.landing_of(loop_end);
                }
            },
            Instruction::LoopEnd(Some(loop_start)) => {
                if cell != 0 {
                    onward = self.landing_of(loop_start);
                }
            },
            _ => {},
        }
        self.instruction_ptr = onward;
        action
    }

    /// Hands a byte of input to a machine that waits for one: the byte goes into the
    /// current cell and the machine moves on. A machine that does not wait refuses
    /// the byte and stays as it is.
    pub fn feed(&mut self, byte: u8) -> (taken: bool)
        ensures
            final(self).program() == old(self).program(),
            final(self).state() == fed_state(old(self).program(), old(self).state(), byte),
            taken == awaits_input(old(self).program(), old(self).state()),
    {
        proof {
            use_type_invariant(&*self);
        }
        if self.instruction_ptr >= self.instructions.len() {
            return false;
        }
        match self.instructions[self.instruction_ptr] {
            Instruction::Input => {
                self.buffer[self.buffer_ptr] = byte;
                self.instruction_ptr = self.instruction_ptr + 1;
                true
            },
            _ => false,
        }
    }

    fn landing_of(&self, target: usize) -> (counter: usize)
        ensures
            counter == landing(self.program(), target),
    {
        if target < self.instructions.len() {
            target + 1
        } else {
            self.instructions.len()
        }
    }

    /// Runs the program as it stands against a stream of input, for at most `budget`
    /// instructions: from the machine's present state, taking input from the front of
    /// `input` and appending the value of each cell that is emitted to `output`. The
    /// run ends before the budget is spent when the program ends, and fails, where an
    /// input instruction finds `input` used up, with an I/O error. Returns the number
    /// of input bytes consumed.
    pub fn execute(&mut self, input: &[u8], output: &mut Vec<u8>, budget: usize) -> (outcome:
        Result<usize, ExecutionError>)
        ensures
            final(self).program() == old(self).program(),
            final(self).state() == run_steps(
                old(self).program(),
                input@,
                begin(old(self).state(), old(output)@),
                budget as nat,
            ).state,
            final(output)@ == run_steps(
                old(self).program(),
                input@,
                begin(old(self).state(), old(output)@),
                budget as nat,
            ).output,
            match outcome {
                Ok(consumed) => {
                    let end = run_steps(
                        old(self).program(),
                        input@,
                        begin(old(self).state(), old(output)@),
                        budget as nat,
                    );
                    !end.starved && consumed == end.consumed
                },
                Err(error) => {
                    &&& error is IoError
                    &&& run_steps(
                        old(self).program(),
                        input@,
                        begin(old(self).state(), old(output)@),
                        budget as nat,
                    ).starved
                },
            },
    {
        let ghost program = self.instructions@;
        let ghost start = begin(self.state(), output@);
        let mut consumed: usize = 0;
        let mut done: usize = 0;
        while done < budget
            invariant
                done <= budget,
                consumed <= input@.len(),
                program == old(self).program(),
                start == begin(old(self).state(), old(output)@),
                self.instructions@ == program,
                run_steps(program, input@, start, done as nat) == (Progress {
                    state: self.state(),
                    consumed: consumed as int,
                    output: output@,
                    starved: false,
                }),
            decreases budget - done,
        {
            let ghost here = run_steps(program, input@, start, done as nat);
            proof {
                run_steps_add(program, input@, start, (done + 1) as nat, (budget - done - 1) as nat);
            }
            match self.step() {
                Action::Continue => {},
                Action::Write(value) => {
                    output.push(value);
                },
                Action::Read => {
                    if consumed < input.len() {
                        self.feed(input[consumed]);
                        consumed += 1;
                    } else {
                        proof {
                            settled_stays(
                                program,
                                input@,
                                run_step(program, input@, here),
                                (budget - done - 1) as nat,
                            );
                        }
                        return Err(ExecutionError::IoError(end_of_input()));
                    }
                },
                Action::Halt => {
                    proof {
                        settled_stays(program, input@, here, (budget - done - 1) as nat);
                    }
                    return Ok(consumed);
                },
            }
            done += 1;
        }
        Ok(consumed)
    }

    /// Prepares the program and runs it: fuses it, links its brackets, and, unless a
    /// bracket has no partner, executes it as `execute` does. A program with such a
    /// bracket is not started: the error names the bracket by its index in the fused
    /// program, and neither tape nor streams are touched.
    pub fn run(&mut self, input: &[u8], output: &mut Vec<u8>, budget: usize) -> (outcome: Result<
        usize,
        ExecutionError,
    >)
        ensures
            outcome matches Err(ExecutionError::UnexpectedBracket(_)) <==> !balanced(
                old(self).program(),
            ),
            balanced(old(self).program()) ==> final(self).program() == linked(
                fused(old(self).program()),
            ),
            final(self).program() == linked_upto(
                fused(old(self).program()),
                first_stray(fused(old(self).program()), 0),
            ),
            match fault(fused(old(self).program())) {
                Some(at) => {
                    &&& outcome matches Err(ExecutionError::UnexpectedBracket(index)) && index == at
                    &&& final(self).state() == old(self).state()
                    &&& final(output)@ == old(output)@
                },
                None => {
                    let end = run_steps(
                        final(self).program(),
                        input@,
                        begin(old(self).state(), old(output)@),
                        budget as nat,
                    );
                    &&& final(self).state() == end.state
                    &&& final(output)@ == end.output
                    &&& match outcome {
                        Ok(consumed) => !end.starved && consumed == end.consumed,
                        Err(error) => error is IoError && end.starved,
                    }
                },
            },
    {
        proof {
            fusion_keeps_balance(self.program());
            balanced_iff_faultless(fused(self.program()));
        }
        self.optimize();
        match self.fill_loops() {
            Ok(()) => self.execute(input, output, budget),
            Err(error) => Err(error),
        }
    }

    /// The instruction sequence.
    pub fn instructions(&self) -> (instructions: &Vec<Instruction>)
        ensures
            instructions@ == self.program(),
    {
        &self.instructions
    }

    /// The cells of the tape.
    pub fn cells(&self) -> (cells: &[u8; 30_000])
        ensures
            cells@ == self.tape(),
    {
        &self.buffer
    }

    /// The index of the current cell, which is always on the tape.
    pub fn buffer_ptr(&self) -> (pointer: usize)
        ensures
            pointer == self.pointer(),
            pointer < TAPE_LEN,
    {
        proof {
            use_type_invariant(self);
        }
        self.buffer_ptr
    }

    /// The index of the instruction to execute next.
    pub fn instruction_ptr(&self) -> (counter: usize)
        ensures
            counter == self.counter(),
    {
        self.instruction_ptr
    }
}

/// `std::io::Error::from` on `std::io::ErrorKind::UnexpectedEof`: the error that
/// stands for input that has run out. Nothing is claimed of the value.
#[verifier::external_body]
fn end_of_input() -> std::io::Error {
    std::io::Error::from(std::io::ErrorKind::UnexpectedEof)
}

} // verus!
