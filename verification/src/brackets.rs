//! Loop brackets: nesting depth, partners, and what a linked program looks like.

use crate::instruction::Instruction;
use vstd::prelude::*;

verus! {

/// What an instruction adds to the nesting depth.
pub open spec fn weight(instruction: Instruction) -> int {
    if instruction.is_open() {
        1
    } else if instruction.is_close() {
        -1
    } else {
        0
    }
}

/// The nesting depth in front of position `at`: the loops opened minus the loops
/// closed among the first `at` instructions.
pub open spec fn depth(program: Seq<Instruction>, at: int) -> int
    decreases at,
{
    if at <= 0 {
        0
    } else {
        depth(program, at - 1) + weight(program[at - 1])
    }
}

/// Brackets are balanced and properly nested: the depth never drops below zero and
/// is zero at the end.
pub open spec fn balanced(program: Seq<Instruction>) -> bool {
    &&& forall|at: int| 0 <= at <= program.len() ==> depth(program, at) >= 0
    &&& depth(program, program.len() as int) == 0
}

/// The first position at or after `from` behind which the depth is `level`, or the
/// program's length if there is none.
pub open spec fn seek_close(program: Seq<Instruction>, from: int, level: int) -> int
    decreases program.len() - from,
{
    if from >= program.len() {
        program.len() as int
    } else if depth(program, from + 1) == level {
        from
    } else {
        seek_close(program, from + 1, level)
    }
}

/// The last position at or before `from` in front of which the depth is `level`, or
/// -1 if there is none.
pub open spec fn seek_open(program: Seq<Instruction>, from: int, level: int) -> int
    decreases from + 1,
{
    if from < 0 {
        -1
    } else if depth(program, from) == level {
        from
    } else {
        seek_open(program, from - 1, level)
    }
}

/// The partner of the opening bracket at `open`: the first later position that
/// brings the depth back to what it was in front of `open`. The program's length
/// if the loop is never closed.
pub open spec fn closer(program: Seq<Instruction>, open: int) -> int {
    seek_close(program, open + 1, depth(program, open))
}

/// The partner of the closing bracket at `close`: the last earlier position in
/// front of which the depth was what it is behind `close`. -1 if there is none.
pub open spec fn opener(program: Seq<Instruction>, close: int) -> int {
    seek_open(program, close - 1, depth(program, close + 1))
}

/// A closing bracket without a partner.
pub open spec fn is_stray(program: Seq<Instruction>, at: int) -> bool {
    program[at].is_close() && opener(program, at) < 0
}

/// An opening bracket without a partner.
pub open spec fn is_unclosed(program: Seq<Instruction>, at: int) -> bool {
    program[at].is_open() && closer(program, at) >= program.len()
}

/// The first stray closing bracket at or after `from`, or the program's length.
pub open spec fn first_stray(program: Seq<Instruction>, from: int) -> int
    decreases program.len() - from,
{
    if from >= program.len() {
        program.len() as int
    } else if is_stray(program, from) {
        from
    } else {
        first_stray(program, from + 1)
    }
}

/// The last unclosed opening bracket before `below`, or -1.
pub open spec fn last_unclosed(program: Seq<Instruction>, below: int) -> int
    decreases below,
{
    if below <= 0 {
        -1
    } else if is_unclosed(program, below - 1) {
        below - 1
    } else {
        last_unclosed(program, below - 1)
    }
}

/// The bracket that makes a program unacceptable: its first stray closing bracket;
/// if it has none, its innermost unclosed opening bracket; `None` if every bracket
/// has a partner.
pub open spec fn fault(program: Seq<Instruction>) -> Option<int> {
    if first_stray(program, 0) < program.len() {
        Some(first_stray(program, 0))
    } else if last_unclosed(program, program.len() as int) >= 0 {
        Some(last_unclosed(program, program.len() as int))
    } else {
        None
    }
}

/// The instruction at `at` once every pair that closes before `limit` is linked: a
/// bracket of such a pair holds its partner's index, anything else is as it was.
pub open spec fn relinked(program: Seq<Instruction>, at: int, limit: int) -> Instruction {
    match program[at] {
        Instruction::LoopStart(_) => if closer(program, at) < limit {
            Instruction::LoopStart(Some(closer(program, at) as usize))
        } else {
            program[at]
        },
        Instruction::LoopEnd(_) => if at < limit && opener(program, at) >= 0 {
            Instruction::LoopEnd(Some(opener(program, at) as usize))
        } else {
            program[at]
        },
        other => other,
    }
}

/// The program with every pair that closes before `limit` linked.
pub open spec fn linked_upto(program: Seq<Instruction>, limit: int) -> Seq<Instruction> {
    Seq::new(program.len(), |at: int| relinked(program, at, limit))
}

/// The program with every pair linked.
pub open spec fn linked(program: Seq<Instruction>) -> Seq<Instruction> {
    linked_upto(program, program.len() as int)
}

/// What a forward search finds: a position in range, with the wanted depth behind
/// it unless it is the end, and no earlier position with that depth behind it.
pub proof fn seek_close_finds(program: Seq<Instruction>, from: int, level: int)
    requires
        0 <= from <= program.len(),
    ensures
        from <= seek_close(program, from, level) <= program.len(),
        seek_close(program, from, level) < program.len() ==> depth(
            program,
            seek_close(program, from, level) + 1,
        ) == level,
        forall|behind: int|
            from < behind <= seek_close(program, from, level) ==> depth(program, behind) != level,
    decreases program.len() - from,
{
    if from < program.len() && depth(program, from + 1) != level {
        seek_close_finds(program, from + 1, level);
    }
}

/// A forward search can be taken up again anywhere before what it finds.
pub proof fn seek_close_resumes(program: Seq<Instruction>, from: int, later: int, level: int)
    requires
        0 <= from <= later <= seek_close(program, from, level),
    ensures
        seek_close(program, later, level) == seek_close(program, from, level),
    decreases later - from,
{
    if from < later {
        seek_close_finds(program, from, level);
        if from < program.len() && depth(program, from + 1) != level {
            seek_close_resumes(program, from + 1, later, level);
        }
    }
}

/// What a backward search finds: a position with the wanted depth in front of it,
/// or -1, and no later position with that depth in front of it.
pub proof fn seek_open_finds(program: Seq<Instruction>, from: int, level: int)
    requires
        -1 <= from,
    ensures
        -1 <= seek_open(program, from, level) <= from,
        seek_open(program, from, level) >= 0 ==> depth(
            program,
            seek_open(program, from, level),
        ) == level,
        forall|before: int|
            seek_open(program, from, level) < before <= from ==> depth(program, before) != level,
    decreases from + 1,
{
    if from >= 0 && depth(program, from) != level {
        seek_open_finds(program, from - 1, level);
    }
}

/// What a forward scan for stray brackets finds.
pub proof fn first_stray_finds(program: Seq<Instruction>, from: int)
    requires
        0 <= from <= program.len(),
    ensures
        from <= first_stray(program, from) <= program.len(),
        first_stray(program, from) < program.len() ==> is_stray(
            program,
            first_stray(program, from),
        ),
        forall|at: int| from <= at < first_stray(program, from) ==> !is_stray(program, at),
    decreases program.len() - from,
{
    if from < program.len() && !is_stray(program, from) {
        first_stray_finds(program, from + 1);
    }
}

/// What a backward scan for unclosed brackets finds.
pub proof fn last_unclosed_finds(program: Seq<Instruction>, below: int)
    requires
        0 <= below <= program.len(),
    ensures
        -1 <= last_unclosed(program, below) < below,
        last_unclosed(program, below) >= 0 ==> is_unclosed(
            program,
            last_unclosed(program, below),
        ),
        forall|at: int| last_unclosed(program, below) < at < below ==> !is_unclosed(program, at),
    decreases below,
{
    if below > 0 && !is_unclosed(program, below - 1) {
        last_unclosed_finds(program, below - 1);
    }
}

/// The state of a left-to-right pass that has read the first `upto` instructions
/// without meeting a stray bracket, where `open` lists, outermost first, the
/// opening brackets read so far that are still waiting for their partner.
pub open spec fn pending(program: Seq<Instruction>, open: Seq<usize>, upto: int) -> bool {
    &&& 0 <= upto <= program.len()
    &&& depth(program, upto) == open.len()
    &&& forall|at: int| 0 <= at <= upto ==> depth(program, at) >= 0
    &&& forall|s: int, t: int| 0 <= s < t < open.len() ==> open[s] < open[t]
    &&& forall|t: int|
        0 <= t < open.len() ==> {
            &&& (#[trigger] open[t]) < upto
            &&& program[open[t] as int].is_open()
            &&& depth(program, open[t] as int) == t
            &&& closer(program, open[t] as int) >= upto
        }
    &&& forall|at: int|
        0 <= at < upto && (#[trigger] program[at]).is_open() ==> {
            ||| closer(program, at) < upto
            ||| (depth(program, at) < open.len() && open[depth(program, at)] == at)
        }
    &&& forall|at: int|
        0 <= at < upto && (#[trigger] program[at]).is_close() ==> opener(program, at) >= 0
}

/// Nothing is waiting before the pass begins, and nothing is linked.
pub proof fn pending_begins(program: Seq<Instruction>)
    ensures
        pending(program, Seq::empty(), 0),
        linked_upto(program, 0) == program,
{
    assert forall|at: int| 0 <= at < program.len() implies relinked(program, at, 0)
        == program[at] by {
        if program[at].is_open() {
            seek_close_finds(program, at + 1, depth(program, at));
        }
    }
    assert(linked_upto(program, 0) =~= program);
}

/// Reading an instruction that is no closing bracket links nothing; an opening
/// bracket joins those that wait.
pub proof fn pending_advances(program: Seq<Instruction>, open: Seq<usize>, upto: int)
    requires
        pending(program, open, upto),
        upto < program.len(),
        upto <= usize::MAX,
        !program[upto].is_close(),
    ensures
        program[upto].is_open() ==> pending(program, open.push(upto as usize), upto + 1),
        !program[upto].is_open() ==> pending(program, open, upto + 1),
        linked_upto(program, upto + 1) == linked_upto(program, upto),
{
    let next = if program[upto].is_open() {
        open.push(upto as usize)
    } else {
        open
    };
    assert(depth(program, upto + 1) == next.len());
    assert forall|t: int| 0 <= t < open.len() implies closer(program, #[trigger] open[t] as int)
        >= upto + 1 by {
        seek_close_finds(program, open[t] + 1, t);
    }
    if program[upto].is_open() {
        seek_close_finds(program, upto + 1, depth(program, upto));
    }
    assert(pending(program, next, upto + 1));
    assert forall|at: int| 0 <= at < program.len() implies relinked(program, at, upto + 1)
        == relinked(program, at, upto) by {
        if program[at].is_open() {
            seek_close_finds(program, at + 1, depth(program, at));
        }
    }
    assert(linked_upto(program, upto + 1) =~= linked_upto(program, upto));
}

/// Reading a closing bracket while something waits pairs it with the innermost
/// waiting bracket, and links exactly these two.
pub proof fn pending_closes(program: Seq<Instruction>, open: Seq<usize>, upto: int)
    requires
        pending(program, open, upto),
        upto < program.len(),
        upto <= usize::MAX,
        program[upto].is_close(),
        open.len() > 0,
    ensures
        pending(program, open.drop_last(), upto + 1),
        closer(program, open.last() as int) == upto,
        opener(program, upto) == open.last(),
        linked_upto(program, upto + 1) == linked_upto(program, upto).update(
            open.last() as int,
            Instruction::LoopStart(Some(upto as usize)),
        ).update(upto, Instruction::LoopEnd(Some(open.last()))),
{
    let top = open.last() as int;
    let level = open.len() - 1;
    assert(open[level] == top);
    assert(depth(program, upto + 1) == level);
    seek_close_finds(program, top + 1, level);
    seek_close_resumes(program, top + 1, upto, level);
    assert(closer(program, top) == upto);
    seek_open_finds(program, upto - 1, level);
    assert(depth(program, top + 1) == level + 1);
    assert(opener(program, upto) == top);
    assert forall|t: int| 0 <= t < open.len() - 1 implies closer(program, #[trigger] open[t] as int)
        >= upto + 1 by {
        seek_close_finds(program, open[t] + 1, t);
    }
    assert(pending(program, open.drop_last(), upto + 1));
    let linked_next = linked_upto(program, upto).update(
        top,
        Instruction::LoopStart(Some(upto as usize)),
    ).update(upto, Instruction::LoopEnd(Some(open.last())));
    assert forall|at: int| 0 <= at < program.len() implies relinked(program, at, upto + 1)
        == linked_next[at] by {
        if program[at].is_open() {
            seek_close_finds(program, at + 1, depth(program, at));
            if at < upto && closer(program, at) >= upto {
                let t = depth(program, at);
                assert(open[t] == at);
                if t < level {
                    seek_close_finds(program, open[t] + 1, t);
                }
            }
        }
    }
    assert(linked_upto(program, upto + 1) =~= linked_next);
}

/// Reading a closing bracket while nothing waits: it is the program's first stray
/// bracket.
pub proof fn pending_strays(program: Seq<Instruction>, open: Seq<usize>, upto: int)
    requires
        pending(program, open, upto),
        upto < program.len(),
        program[upto].is_close(),
        open.len() == 0,
    ensures
        first_stray(program, 0) == upto,
{
    seek_open_finds(program, upto - 1, -1);
    assert(is_stray(program, upto));
    first_stray_finds(program, 0);
}

/// At the end of the pass no bracket was stray, and the innermost bracket that
/// still waits, if any, is the program's last unclosed one.
pub proof fn pending_ends(program: Seq<Instruction>, open: Seq<usize>)
    requires
        pending(program, open, program.len() as int),
    ensures
        first_stray(program, 0) == program.len(),
        open.len() == 0 ==> fault(program) is None,
        open.len() > 0 ==> fault(program) == Some(open.last() as int),
{
    let end = program.len() as int;
    first_stray_finds(program, 0);
    last_unclosed_finds(program, end);
    if open.len() > 0 {
        let top = open.last() as int;
        assert(open[open.len() - 1] == top);
        assert(is_unclosed(program, top));
        let found = last_unclosed(program, end);
        if found > top {
            assert(program[found].is_open());
        }
    } else {
        let found = last_unclosed(program, end);
        if found >= 0 {
            assert(program[found].is_open());
        }
    }
}

/// Between two positions where the depth never is `level`, it stays on one side of it.
pub proof fn same_side(program: Seq<Instruction>, from: int, to: int, level: int)
    requires
        0 <= from <= to,
        forall|at: int| from <= at <= to ==> depth(program, at) != level,
    ensures
        (depth(program, from) > level) == (depth(program, to) > level),
    decreases to - from,
{
    if from < to {
        same_side(program, from, to - 1, level);
    }
}

/// Between a position where the depth is at most `level` and a later one where it is
/// at least `level`, or the other way round, there is one where it is `level`.
pub proof fn crossing(program: Seq<Instruction>, from: int, to: int, level: int) -> (at: int)
    requires
        0 <= from <= to,
        depth(program, from) <= level <= depth(program, to) || depth(program, to) <= level
            <= depth(program, from),
    ensures
        from <= at <= to,
        depth(program, at) == level,
    decreases to - from,
{
    if depth(program, to) == level {
        to
    } else if depth(program, from) == level {
        from
    } else {
        crossing(program, from, to - 1, level)
    }
}

/// The partner of an opening bracket is the first later position that brings the
/// depth back.
pub proof fn closer_is(program: Seq<Instruction>, open: int, close: int)
    requires
        0 <= open < close <= program.len(),
        forall|at: int|
            open < at <= close ==> #[trigger] depth(program, at) != depth(program, open),
        close < program.len() ==> depth(program, close + 1) == depth(program, open),
    ensures
        closer(program, open) == close,
{
    seek_close_finds(program, open + 1, depth(program, open));
}

/// The partner of a closing bracket is the last earlier position where the depth was
/// what the bracket brings it back to.
pub proof fn opener_is(program: Seq<Instruction>, close: int, open: int)
    requires
        -1 <= open < close,
        forall|at: int|
            open < at < close ==> #[trigger] depth(program, at) != depth(program, close + 1),
        open >= 0 ==> depth(program, open) == depth(program, close + 1),
    ensures
        opener(program, close) == open,
{
    seek_open_finds(program, close - 1, depth(program, close + 1));
}

/// The partner of an opening bracket is a closing bracket whose partner it is.
pub proof fn closer_pairs(program: Seq<Instruction>, open: int)
    requires
        0 <= open < program.len(),
        program[open].is_open(),
        closer(program, open) < program.len(),
    ensures
        open < closer(program, open),
        program[closer(program, open)].is_close(),
        opener(program, closer(program, open)) == open,
{
    let level = depth(program, open);
    let close = closer(program, open);
    seek_close_finds(program, open + 1, level);
    assert(depth(program, open + 1) == level + 1);
    same_side(program, open + 1, close, level);
    assert(depth(program, close + 1) == depth(program, close) + weight(program[close]));
    opener_is(program, close, open);
}

/// The partner of a closing bracket is an opening bracket whose partner it is.
pub proof fn opener_pairs(program: Seq<Instruction>, close: int)
    requires
        0 <= close < program.len(),
        program[close].is_close(),
        opener(program, close) >= 0,
    ensures
        opener(program, close) < close,
        program[opener(program, close)].is_open(),
        closer(program, opener(program, close)) == close,
{
    let level = depth(program, close + 1);
    let open = opener(program, close);
    seek_open_finds(program, close - 1, level);
    assert(depth(program, close) == level + 1);
    same_side(program, open + 1, close, level);
    assert(depth(program, open + 1) == depth(program, open) + weight(program[open]));
    closer_is(program, open, close);
}

/// In a program whose first `upto` instructions hold no stray bracket, the depth is
/// not negative up to there.
pub proof fn depth_stays_up(program: Seq<Instruction>, upto: int)
    requires
        0 <= upto <= first_stray(program, 0),
    ensures
        forall|at: int| 0 <= at <= upto ==> depth(program, at) >= 0,
    decreases upto,
{
    if upto > 0 {
        depth_stays_up(program, upto - 1);
        first_stray_finds(program, 0);
        if depth(program, upto) < 0 {
            assert(depth(program, upto - 1) >= 0);
            seek_open_finds(program, upto - 2, -1);
            assert(is_stray(program, upto - 1));
        }
    }
}

/// In a balanced program every opening bracket has its partner.
pub proof fn balanced_closes(program: Seq<Instruction>, open: int)
    requires
        balanced(program),
        0 <= open < program.len(),
        program[open].is_open(),
    ensures
        closer(program, open) < program.len(),
{
    let level = depth(program, open);
    assert(depth(program, open + 1) == level + 1);
    let back = crossing(program, open + 1, program.len() as int, level);
    seek_close_finds(program, open + 1, level);
}

/// In a balanced program every closing bracket has its partner.
pub proof fn balanced_opens(program: Seq<Instruction>, close: int)
    requires
        balanced(program),
        0 <= close < program.len(),
        program[close].is_close(),
    ensures
        opener(program, close) >= 0,
{
    let level = depth(program, close + 1);
    assert(depth(program, close) == level + 1);
    let before = crossing(program, 0, close, level);
    seek_open_finds(program, close - 1, level);
}

/// A program is balanced exactly if it has no faulty bracket.
pub proof fn balanced_iff_faultless(program: Seq<Instruction>)
    ensures
        balanced(program) <==> fault(program) is None,
{
    let end = program.len() as int;
    first_stray_finds(program, 0);
    last_unclosed_finds(program, end);
    if balanced(program) {
        if first_stray(program, 0) < end {
            balanced_opens(program, first_stray(program, 0));
        }
        if last_unclosed(program, end) >= 0 {
            balanced_closes(program, last_unclosed(program, end));
        }
    }
    if fault(program) is None {
        depth_stays_up(program, end);
        let total = depth(program, end);
        if total > 0 {
            let reached = crossing(program, 0, end, total - 1);
            seek_open_finds(program, end - 1, total - 1);
            let open = seek_open(program, end - 1, total - 1);
            same_side(program, open + 1, end, total - 1);
            assert(depth(program, open + 1) == depth(program, open) + weight(program[open]));
            closer_is(program, open, end);
            assert(is_unclosed(program, open));
        }
    }
}

/// Whether every bracket of a program holds the index of a partner that holds its
/// own: an opening bracket that of a closing bracket behind it, a closing bracket that
/// of an opening bracket in front of it.
pub open spec fn well_linked(program: Seq<Instruction>) -> bool {
    forall|at: int|
        0 <= at < program.len() ==> match #[trigger] program[at] {
            Instruction::LoopStart(target) => {
                &&& target is Some
                &&& at < target->0 < program.len()
                &&& program[target->0 as int] == Instruction::LoopEnd(Some(at as usize))
            },
            Instruction::LoopEnd(target) => {
                &&& target is Some
                &&& target->0 < at
                &&& program[target->0 as int] == Instruction::LoopStart(Some(at as usize))
            },
            _ => true,
        }
}

/// A balanced program, linked, is well linked: the targets of every pair are mutual.
/// Linking turns no instruction into one of another kind and changes nothing but
/// brackets.
pub proof fn linked_is_mutual(program: Seq<Instruction>)
    requires
        balanced(program),
        program.len() <= usize::MAX,
    ensures
        well_linked(linked(program)),
        linked(program).len() == program.len(),
        forall|at: int|
            0 <= at < program.len() ==> {
                &&& weight(#[trigger] linked(program)[at]) == weight(program[at])
                &&& weight(program[at]) == 0 ==> linked(program)[at] == program[at]
            },
{
    assert forall|at: int| 0 <= at < program.len() implies match #[trigger] linked(program)[at] {
        Instruction::LoopStart(target) => {
            &&& target is Some
            &&& at < target->0 < program.len()
            &&& linked(program)[target->0 as int] == Instruction::LoopEnd(Some(at as usize))
        },
        Instruction::LoopEnd(target) => {
            &&& target is Some
            &&& target->0 < at
            &&& linked(program)[target->0 as int] == Instruction::LoopStart(Some(at as usize))
        },
        _ => true,
    } by {
        if program[at].is_open() {
            balanced_closes(program, at);
            closer_pairs(program, at);
            balanced_opens(program, closer(program, at));
        } else if program[at].is_close() {
            balanced_opens(program, at);
            opener_pairs(program, at);
            balanced_closes(program, opener(program, at));
        }
    }
}

/// Over a stretch without brackets the depth does not change.
pub proof fn depth_is_flat(program: Seq<Instruction>, from: int, to: int)
    requires
        0 <= from <= to,
        forall|at: int| from <= at < to ==> weight(#[trigger] program[at]) == 0,
    ensures
        depth(program, to) == depth(program, from),
    decreases to - from,
{
    if from < to {
        depth_is_flat(program, from, to - 1);
    }
}

/// A program whose only bracket is a closing one is faulty at that bracket.
pub proof fn lone_close_is_fault(program: Seq<Instruction>, close: int)
    requires
        0 <= close < program.len(),
        program[close].is_close(),
        forall|at: int|
            0 <= at < program.len() && at != close ==> weight(#[trigger] program[at]) == 0,
    ensures
        fault(program) == Some(close),
{
    assert forall|at: int| 0 <= at <= close implies #[trigger] depth(program, at) == 0 by {
        depth_is_flat(program, 0, at);
    }
    assert(depth(program, close + 1) == depth(program, close) + weight(program[close]));
    seek_open_finds(program, close - 1, -1);
    assert(is_stray(program, close));
    first_stray_finds(program, 0);
    let first = first_stray(program, 0);
    if first < close {
        assert(weight(program[first]) == 0);
    }
}

/// A program whose only bracket is an opening one is faulty at that bracket.
pub proof fn lone_open_is_fault(program: Seq<Instruction>, open: int)
    requires
        0 <= open < program.len(),
        program[open].is_open(),
        forall|at: int| 0 <= at < program.len() && at != open ==> weight(#[trigger] program[at]) == 0,
    ensures
        fault(program) == Some(open),
{
    let end = program.len() as int;
    first_stray_finds(program, 0);
    let first = first_stray(program, 0);
    if first < end {
        assert(weight(program[first]) == 0 || first == open);
    }
    depth_is_flat(program, 0, open);
    assert(depth(program, open + 1) == depth(program, open) + weight(program[open]));
    assert forall|at: int| open < at <= end implies #[trigger] depth(program, at) != depth(
        program,
        open,
    ) by {
        depth_is_flat(program, open + 1, at);
    }
    closer_is(program, open, end);
    assert(is_unclosed(program, open));
    last_unclosed_finds(program, end);
    let last = last_unclosed(program, end);
    if last > open {
        assert(weight(program[last]) == 0);
    }
}

/// Pairs do not cross: a loop that opens inside another closes inside it.
pub proof fn pairs_are_nested(program: Seq<Instruction>, outer: int, inner: int)
    requires
        0 <= outer < inner < closer(program, outer),
        closer(program, outer) < program.len(),
        program[outer].is_open(),
        program[inner].is_open(),
    ensures
        inner < closer(program, inner) < closer(program, outer),
{
    let level = depth(program, outer);
    let end = closer(program, outer);
    seek_close_finds(program, outer + 1, level);
    assert(depth(program, outer + 1) == level + 1);
    same_side(program, outer + 1, inner, level);
    assert(depth(program, inner + 1) == depth(program, inner) + 1);
    let back = crossing(program, inner + 1, end + 1, depth(program, inner));
    seek_close_finds(program, inner + 1, depth(program, inner));
}

} // verus!
