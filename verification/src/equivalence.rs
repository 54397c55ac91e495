//! Fusion does not change what a program does.

use crate::brackets::balanced;
use crate::brackets::balanced_closes;
use crate::brackets::balanced_opens;
use crate::brackets::closer;
use crate::brackets::closer_is;
use crate::brackets::closer_pairs;
use crate::brackets::depth;
use crate::brackets::linked;
use crate::brackets::opener;
use crate::brackets::opener_is;
use crate::brackets::opener_pairs;
use crate::brackets::seek_close_finds;
use crate::brackets::seek_open_finds;
use crate::brackets::weight;
use crate::fusion::fused;
use crate::fusion::fused_len;
use crate::fusion::fused_push;
use crate::fusion::merged;
use crate::instruction::Instruction;
use crate::semantics::observed;
use crate::semantics::on_tape;
use crate::semantics::Progress;
use crate::semantics::raised;
use crate::semantics::raised_twice;
use crate::semantics::run_step;
use crate::semantics::run_steps;
use crate::semantics::run_steps_add;
use crate::semantics::settled;
use crate::semantics::settled_stays;
use crate::semantics::shifted_twice;
use crate::semantics::State;
use vstd::prelude::*;

verus! {

/// Whether the instruction at `at` and the one behind it merge.
pub open spec fn mergeable(program: Seq<Instruction>, at: int) -> bool {
    0 <= at && at + 1 < program.len() && merged(program[at], program[at + 1]) is Some
}

/// The program with the instruction at `at` and the one behind it replaced by the one
/// instruction they merge to.
pub open spec fn merged_at(program: Seq<Instruction>, at: int) -> Seq<Instruction> {
    program.remove(at + 1).update(at, merged(program[at], program[at + 1])->0)
}

/// Where the instruction at `index` of a program merged at `at` stood before the
/// merge; for the merged instruction, where its first part stood.
pub open spec fn origin(at: int, index: int) -> int {
    if index <= at {
        index
    } else {
        index + 1
    }
}

/// A merge leaves the depth in front of every instruction as it was.
pub proof fn merge_keeps_depth(program: Seq<Instruction>, at: int, index: int)
    requires
        mergeable(program, at),
        0 <= index < program.len(),
    ensures
        depth(merged_at(program, at), index) == depth(program, origin(at, index)),
        depth(program, at + 1) == depth(program, at),
    decreases index,
{
    assert(weight(program[at]) == 0);
    assert(depth(program, at + 1) == depth(program, at) + weight(program[at]));
    if index > 0 {
        merge_keeps_depth(program, at, index - 1);
        let after = merged_at(program, at);
        assert(depth(after, index) == depth(after, index - 1) + weight(after[index - 1]));
        if index - 1 == at {
            assert(depth(program, at + 2) == depth(program, at + 1) + weight(program[at + 1]));
        } else {
            assert(after[index - 1] == program[origin(at, index - 1)]);
            assert(depth(program, origin(at, index)) == depth(program, origin(at, index) - 1)
                + weight(program[origin(at, index) - 1]));
        }
    }
}

/// A merge neither makes nor breaks the balance of the brackets.
pub proof fn merge_keeps_balance(program: Seq<Instruction>, at: int)
    requires
        mergeable(program, at),
    ensures
        balanced(merged_at(program, at)) == balanced(program),
{
    let after = merged_at(program, at);
    assert forall|index: int| 0 <= index <= after.len() implies #[trigger] depth(after, index)
        == depth(program, origin(at, index)) by {
        merge_keeps_depth(program, at, index);
    }
    merge_keeps_depth(program, at, at);
    if balanced(after) {
        assert forall|index: int| 0 <= index <= program.len() implies depth(program, index)
            >= 0 by {
            if index <= at {
                assert(depth(after, index) >= 0);
            } else if index == at + 1 {
                assert(depth(after, at) >= 0);
            } else {
                assert(depth(after, index - 1) >= 0);
            }
        }
    }
    if balanced(program) {
        assert forall|index: int| 0 <= index <= after.len() implies depth(after, index) >= 0 by {
            assert(depth(program, origin(at, index)) >= 0);
        }
    }
}

/// In a balanced program, a merge moves the partner of every opening bracket along
/// with the bracket.
pub proof fn merge_keeps_closer(program: Seq<Instruction>, at: int, index: int)
    requires
        mergeable(program, at),
        balanced(program),
        0 <= index < program.len() - 1,
        merged_at(program, at)[index].is_open(),
    ensures
        index < closer(merged_at(program, at), index) < program.len() - 1,
        closer(merged_at(program, at), index) != at,
        closer(program, origin(at, index)) == origin(at, closer(merged_at(program, at), index)),
{
    let after = merged_at(program, at);
    let level = depth(after, index);
    let close = closer(after, index);
    merge_keeps_balance(program, at);
    balanced_closes(after, index);
    closer_pairs(after, index);
    seek_close_finds(after, index + 1, level);
    assert(depth(after, index + 1) == level + 1);
    merge_keeps_depth(program, at, index);
    merge_keeps_depth(program, at, close + 1);
    assert forall|other: int|
        origin(at, index) < other <= origin(at, close) implies #[trigger] depth(program, other)
        != level by {
        if other <= at {
            merge_keeps_depth(program, at, other);
        } else if other == at + 1 {
            merge_keeps_depth(program, at, at);
        } else {
            merge_keeps_depth(program, at, other - 1);
        }
    }
    closer_is(program, origin(at, index), origin(at, close));
}

/// In a balanced program, a merge moves the partner of every closing bracket along
/// with the bracket.
pub proof fn merge_keeps_opener(program: Seq<Instruction>, at: int, index: int)
    requires
        mergeable(program, at),
        balanced(program),
        0 <= index < program.len() - 1,
        merged_at(program, at)[index].is_close(),
    ensures
        0 <= opener(merged_at(program, at), index) < index,
        opener(merged_at(program, at), index) != at,
        opener(program, origin(at, index)) == origin(at, opener(merged_at(program, at), index)),
{
    let after = merged_at(program, at);
    let level = depth(after, index + 1);
    let open = opener(after, index);
    merge_keeps_balance(program, at);
    balanced_opens(after, index);
    opener_pairs(after, index);
    seek_open_finds(after, index - 1, level);
    merge_keeps_depth(program, at, index + 1);
    merge_keeps_depth(program, at, open);
    assert(origin(at, index) + 1 == origin(at, index + 1));
    assert forall|other: int|
        origin(at, open) < other < origin(at, index) implies #[trigger] depth(program, other)
        != level by {
        if other <= at {
            merge_keeps_depth(program, at, other);
        } else if other == at + 1 {
            merge_keeps_depth(program, at, at);
        } else {
            merge_keeps_depth(program, at, other - 1);
        }
    }
    opener_is(program, origin(at, index), origin(at, open));
}

/// How a run of a program stands to a run of the same program merged at `at`: the
/// two differ in the place in the program alone, and the one is where the other's
/// instruction stood before the merge.
pub open spec fn abreast(program: Seq<Instruction>, at: int, slow: Progress, fast: Progress) -> bool {
    &&& on_tape(fast.state)
    &&& 0 <= fast.state.counter <= program.len() - 1
    &&& slow == Progress {
        state: State { counter: origin(at, fast.state.counter), ..fast.state },
        ..fast
    }
}

/// The number of instructions that the program takes for one instruction of the
/// merged program: two for the merged instruction, one for every other.
pub open spec fn stride(at: int, fast: Progress) -> nat {
    if !fast.starved && fast.state.counter == at {
        2
    } else {
        1
    }
}

/// One instruction of the merged program does what the program does in one stride.
pub proof fn merge_step(
    program: Seq<Instruction>,
    at: int,
    input: Seq<u8>,
    slow: Progress,
    fast: Progress,
)
    requires
        mergeable(program, at),
        balanced(program),
        program.len() <= usize::MAX,
        abreast(program, at, slow, fast),
    ensures
        abreast(
            program,
            at,
            run_steps(linked(program), input, slow, stride(at, fast)),
            run_step(linked(merged_at(program, at)), input, fast),
        ),
{
    let after = merged_at(program, at);
    let index = fast.state.counter;
    reveal_with_fuel(run_steps, 3);
    if !fast.starved && index < after.len() {
        merge_keeps_balance(program, at);
        if index == at {
            match (program[at], program[at + 1]) {
                (Instruction::Move(first), Instruction::Move(second)) => {
                    shifted_twice(fast.state.pointer, first as int, second as int);
                },
                (Instruction::Add(first), Instruction::Add(second)) => {
                    let cell = fast.state.tape[fast.state.pointer];
                    raised_twice(cell, first as int, second as int);
                    let once = fast.state.tape.update(
                        fast.state.pointer,
                        raised(cell, first as int),
                    );
                    assert(once.update(fast.state.pointer, raised(raised(cell, first as int), second as int))
                        =~= fast.state.tape.update(
                        fast.state.pointer,
                        raised(cell, first + second),
                    ));
                },
                _ => {},
            }
        } else {
            assert(after[index] == program[origin(at, index)]);
            if after[index].is_open() {
                merge_keeps_closer(program, at, index);
            }
            if after[index].is_close() {
                merge_keeps_opener(program, at, index);
            }
        }
    }
}

/// A run of the merged program is matched, instruction for instruction of the merged
/// program, by a run of the program that is at least as long.
pub proof fn merge_run(
    program: Seq<Instruction>,
    at: int,
    input: Seq<u8>,
    start: Progress,
    steps: nat,
) -> (slow_steps: nat)
    requires
        mergeable(program, at),
        balanced(program),
        program.len() <= usize::MAX,
        on_tape(start.state),
        start.state.counter == 0,
    ensures
        slow_steps >= steps,
        abreast(
            program,
            at,
            run_steps(linked(program), input, start, slow_steps),
            run_steps(linked(merged_at(program, at)), input, start, steps),
        ),
        observed(linked(program), run_steps(linked(program), input, start, slow_steps))
            == observed(
            linked(merged_at(program, at)),
            run_steps(linked(merged_at(program, at)), input, start, steps),
        ),
    decreases steps,
{
    if steps == 0 {
        0
    } else {
        let before = merge_run(program, at, input, start, (steps - 1) as nat);
        let slow = run_steps(linked(program), input, start, before);
        let fast = run_steps(linked(merged_at(program, at)), input, start, (steps - 1) as nat);
        merge_step(program, at, input, slow, fast);
        run_steps_add(linked(program), input, start, before, stride(at, fast));
        before + stride(at, fast)
    }
}

/// The program with its first `upto` instructions fused and the rest as they are.
pub open spec fn fused_upto(program: Seq<Instruction>, upto: int) -> Seq<Instruction> {
    fused(program.take(upto)) + program.skip(upto)
}

/// Fusing one instruction more is one merge, or nothing.
pub proof fn fused_upto_next(program: Seq<Instruction>, upto: int)
    requires
        0 <= upto < program.len(),
    ensures
        fused_upto(program, upto).len() <= program.len(),
        fused_upto(program, upto + 1) == fused_upto(program, upto) || {
            &&& mergeable(fused_upto(program, upto), fused(program.take(upto)).len() - 1)
            &&& fused_upto(program, upto + 1) == merged_at(
                fused_upto(program, upto),
                fused(program.take(upto)).len() - 1,
            )
        },
{
    let front = fused(program.take(upto));
    let next = program[upto];
    let stage = fused_upto(program, upto);
    fused_len(program.take(upto));
    fused_push(program.take(upto), next);
    assert(program.take(upto).push(next) =~= program.take(upto + 1));
    if front.len() > 0 && merged(front.last(), next) is Some {
        let at = front.len() - 1;
        assert(stage[at] == front.last());
        assert(stage[at + 1] == next);
        assert(fused_upto(program, upto + 1) =~= merged_at(stage, at));
    } else {
        assert(fused_upto(program, upto + 1) =~= stage);
    }
}

/// Fusing a program's front neither makes nor breaks the balance of its brackets.
pub proof fn fused_upto_keeps_balance(program: Seq<Instruction>, upto: int)
    requires
        0 <= upto <= program.len(),
    ensures
        balanced(fused_upto(program, upto)) == balanced(program),
    decreases upto,
{
    if upto == 0 {
        assert(fused_upto(program, 0) =~= program);
    } else {
        fused_upto_keeps_balance(program, upto - 1);
        fused_upto_next(program, upto - 1);
        if fused_upto(program, upto) != fused_upto(program, upto - 1) {
            merge_keeps_balance(
                fused_upto(program, upto - 1),
                fused(program.take(upto - 1)).len() - 1,
            );
        }
    }
}

/// A run of the program with its front fused is matched by a run of the program that
/// is at least as long.
pub proof fn fused_upto_run(
    program: Seq<Instruction>,
    upto: int,
    input: Seq<u8>,
    start: Progress,
    steps: nat,
) -> (slow_steps: nat)
    requires
        balanced(program),
        program.len() <= usize::MAX,
        0 <= upto <= program.len(),
        on_tape(start.state),
        start.state.counter == 0,
    ensures
        slow_steps >= steps,
        observed(linked(program), run_steps(linked(program), input, start, slow_steps))
            == observed(
            linked(fused_upto(program, upto)),
            run_steps(linked(fused_upto(program, upto)), input, start, steps),
        ),
    decreases upto,
{
    if upto == 0 {
        assert(fused_upto(program, 0) =~= program);
        steps
    } else {
        let stage = fused_upto(program, upto - 1);
        fused_upto_next(program, upto - 1);
        if fused_upto(program, upto) == stage {
            fused_upto_run(program, upto - 1, input, start, steps)
        } else {
            fused_upto_keeps_balance(program, upto - 1);
            let at = fused(program.take(upto - 1)).len() - 1;
            let between = merge_run(stage, at, input, start, steps);
            fused_upto_run(program, upto - 1, input, start, between)
        }
    }
}

/// Fusion neither makes nor breaks the balance of the brackets: the fused program is
/// accepted exactly if the program is.
pub proof fn fusion_keeps_balance(program: Seq<Instruction>)
    ensures
        balanced(fused(program)) == balanced(program),
{
    fused_upto_keeps_balance(program, program.len() as int);
    assert(fused_upto(program, program.len() as int) =~= fused(program)) by {
        assert(program.take(program.len() as int) =~= program);
    }
}

/// Fusion does not change what a program does. Run from its first instruction on any
/// tape and against any input, the fused program after any number of instructions
/// shows what the program itself shows after a number that is no smaller: the same
/// tape and pointer, the same input consumed, the same output, and it has ended or
/// starved exactly if the other has.
pub proof fn fusion_keeps_behaviour(
    program: Seq<Instruction>,
    input: Seq<u8>,
    start: Progress,
    steps: nat,
) -> (slow_steps: nat)
    requires
        balanced(program),
        program.len() <= usize::MAX,
        on_tape(start.state),
        start.state.counter == 0,
    ensures
        slow_steps >= steps,
        observed(linked(program), run_steps(linked(program), input, start, slow_steps))
            == observed(
            linked(fused(program)),
            run_steps(linked(fused(program)), input, start, steps),
        ),
{
    assert(fused_upto(program, program.len() as int) =~= fused(program)) by {
        assert(program.take(program.len() as int) =~= program);
    }
    fused_upto_run(program, program.len() as int, input, start, steps)
}

/// Where a program's run is over within some number of instructions, the fused
/// program's run is over within as many, and ends the same way: with the same tape
/// and pointer, the same input consumed and the same output.
pub proof fn fusion_keeps_outcome(
    program: Seq<Instruction>,
    input: Seq<u8>,
    start: Progress,
    steps: nat,
)
    requires
        balanced(program),
        program.len() <= usize::MAX,
        on_tape(start.state),
        start.state.counter == 0,
        settled(linked(program), run_steps(linked(program), input, start, steps)),
    ensures
        settled(linked(fused(program)), run_steps(linked(fused(program)), input, start, steps)),
        observed(linked(fused(program)), run_steps(linked(fused(program)), input, start, steps))
            == observed(linked(program), run_steps(linked(program), input, start, steps)),
{
    let slow_steps = fusion_keeps_behaviour(program, input, start, steps);
    let end = run_steps(linked(program), input, start, steps);
    settled_stays(linked(program), input, end, (slow_steps - steps) as nat);
    run_steps_add(linked(program), input, start, steps, (slow_steps - steps) as nat);
}

} // verus!
