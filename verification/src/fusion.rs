//! Peephole fusion: a run of moves becomes one move, a run of additions one addition.

use crate::instruction::Instruction;
use crate::parser::is_primitive;
use vstd::prelude::*;

verus! {

/// The single instruction that does the work of `first` followed by `second`: two
/// moves, or two additions, whose amounts sum to an amount that the instruction can
/// hold. `None` for every other pair.
pub open spec fn merged(first: Instruction, second: Instruction) -> Option<Instruction> {
    match (first, second) {
        (Instruction::Move(a), Instruction::Move(b)) => if i64::MIN <= a + b <= i64::MAX {
            Some(Instruction::Move((a + b) as i64))
        } else {
            None
        },
        (Instruction::Add(a), Instruction::Add(b)) => if i16::MIN <= a + b <= i16::MAX {
            Some(Instruction::Add((a + b) as i16))
        } else {
            None
        },
        _ => None,
    }
}

/// The fused form of a program: read from left to right, each instruction is merged
/// into the one before it where the two merge, and follows it where they do not. A
/// merged instruction that amounts to nothing stays in place.
pub open spec fn fused(program: Seq<Instruction>) -> Seq<Instruction>
    decreases program.len(),
{
    if program.len() == 0 {
        program
    } else {
        let front = fused(program.drop_last());
        let next = program.last();
        if front.len() > 0 && merged(front.last(), next) is Some {
            front.drop_last().push(merged(front.last(), next)->0)
        } else {
            front.push(next)
        }
    }
}

impl Instruction {
    /// Merges `next` into this instruction where the two merge.
    pub fn merge(self, next: Instruction) -> (fusion: Option<Instruction>)
        ensures
            fusion == merged(self, next),
    {
        match (self, next) {
            (Instruction::Move(a), Instruction::Move(b)) => match a.checked_add(b) {
                Some(sum) => Some(Instruction::Move(sum)),
                None => None,
            },
            (Instruction::Add(a), Instruction::Add(b)) => match a.checked_add(b) {
                Some(sum) => Some(Instruction::Add(sum)),
                None => None,
            },
            _ => None,
        }
    }
}

/// The fused form one instruction further on.
pub proof fn fused_push(program: Seq<Instruction>, next: Instruction)
    ensures
        fused(program.push(next)) == if fused(program).len() > 0 && merged(
            fused(program).last(),
            next,
        ) is Some {
            fused(program).drop_last().push(merged(fused(program).last(), next)->0)
        } else {
            fused(program).push(next)
        },
{
    assert(program.push(next).drop_last() =~= program);
}

/// Fusion never lengthens a program.
pub proof fn fused_len(program: Seq<Instruction>)
    ensures
        fused(program).len() <= program.len(),
    decreases program.len(),
{
    if program.len() > 0 {
        fused_len(program.drop_last());
    }
}

/// Whether two instructions are of one kind that fuses: both moves, or both additions.
pub open spec fn alike(first: Instruction, second: Instruction) -> bool {
    (first is Move && second is Move) || (first is Add && second is Add)
}

/// How far an instruction moves the pointer or changes the cell, in either direction.
pub open spec fn magnitude(instruction: Instruction) -> int {
    match instruction {
        Instruction::Move(amount) => if amount < 0 {
            -amount
        } else {
            amount as int
        },
        Instruction::Add(amount) => if amount < 0 {
            -amount
        } else {
            amount as int
        },
        _ => 0,
    }
}

/// In a program of primitive instructions that is short enough for every sum to fit,
/// every run collapses: the fused program holds no two moves and no two additions
/// side by side, and no amount in it is larger than the program is long.
pub proof fn runs_collapse(program: Seq<Instruction>)
    requires
        program.len() <= i16::MAX,
        forall|at: int| 0 <= at < program.len() ==> is_primitive(#[trigger] program[at]),
    ensures
        forall|at: int|
            0 <= at < fused(program).len() - 1 ==> !alike(
                #[trigger] fused(program)[at],
                fused(program)[at + 1],
            ),
        forall|at: int|
            0 <= at < fused(program).len() ==> magnitude(#[trigger] fused(program)[at])
                <= program.len(),
    decreases program.len(),
{
    if program.len() > 0 {
        let shorter = program.drop_last();
        assert forall|at: int| 0 <= at < shorter.len() implies is_primitive(
            #[trigger] shorter[at],
        ) by {
            assert(shorter[at] == program[at]);
        }
        runs_collapse(shorter);
        let front = fused(shorter);
        let next = program.last();
        assert(is_primitive(next));
        if front.len() > 0 {
            assert(magnitude(front[front.len() - 1]) <= shorter.len());
            assert(alike(front.last(), next) ==> merged(front.last(), next) is Some);
        }
        assert forall|at: int| 0 <= at < fused(program).len() implies magnitude(
            #[trigger] fused(program)[at],
        ) <= program.len() by {
            if at < front.len() - 1 {
                assert(fused(program)[at] == front[at]);
            } else if at < front.len() {
                assert(magnitude(front[at]) <= shorter.len());
            }
        }
        assert forall|at: int| 0 <= at < fused(program).len() - 1 implies !alike(
            #[trigger] fused(program)[at],
            fused(program)[at + 1],
        ) by {
            if at + 1 < front.len() {
                assert(!alike(front[at], front[at + 1]));
            }
        }
    }
}

} // verus!
