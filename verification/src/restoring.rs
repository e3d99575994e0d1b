//! Scopes are restored: when a block or a call is done, by whatever path,
//! the scope that was current before it is current again, and every
//! statement of the program starts in the global scope.

use vstd::prelude::*;
use crate::machine::boundary_frames;
use crate::machine::execute;
use crate::machine::invoke;
use crate::machine::leave;
use crate::machine::program_frames;
use crate::machine::raise;
use crate::machine::run;
use crate::machine::step;
use crate::machine::Answer;
use crate::machine::Frame;
use crate::machine::State;
use crate::machine::GLOBALS;

verus! {

/// The scope that is current when the frames are all done, `current`
/// being the current one now: the one that the lowest frame of a block or
/// a call goes back to, and `current` where there is no such frame.
pub open spec fn scope_behind<'a>(frames: Seq<Frame<'a>>, current: usize) -> usize
    decreases frames.len(),
{
    if frames.len() == 0 {
        current
    } else {
        scope_behind(
            frames.drop_last(),
            match frames.last() {
                Frame::Restore(entry) => entry.back,
                Frame::Call(entry, _) => entry.back,
                _ => current,
            },
        )
    }
}

/// Whether the frame that runs the program is the lowest one, and the
/// only one of its kind.
pub open spec fn program_is_lowest<'a>(frames: Seq<Frame<'a>>) -> bool {
    &&& frames.len() > 0
    &&& forall|k: int| 0 <= k < frames.len() ==> ((#[trigger] frames[k]) is Program <==> k == 0)
}

/// The scopes will be restored: the program runs below all other frames,
/// and when these are done, the global scope is current.
pub open spec fn scopes_restored<'a>(state: State<'a>) -> bool {
    program_is_lowest(state.frames) && scope_behind(state.frames, state.current) == GLOBALS
}

/// What one more frame makes of the scope behind.
pub proof fn behind_with_frame<'a>(frames: Seq<Frame<'a>>, frame: Frame<'a>, current: usize)
    ensures
        scope_behind(frames.push(frame), current) == scope_behind(
            frames,
            match frame {
                Frame::Restore(entry) => entry.back,
                Frame::Call(entry, _) => entry.back,
                _ => current,
            },
        ),
{
    assert(frames.push(frame).drop_last() =~= frames);
}

/// Below all other frames, the frames up to the one that runs the
/// program are that frame alone.
pub proof fn program_frames_are_lowest<'a>(frames: Seq<Frame<'a>>)
    requires
        program_is_lowest(frames),
    ensures
        program_frames(frames) == frames.take(1),
        scope_behind(program_frames(frames), GLOBALS) == GLOBALS,
        program_is_lowest(program_frames(frames)),
    decreases frames.len(),
{
    let lowest = frames.take(1);
    assert(lowest[0] == frames[0]);
    assert(lowest.drop_last() =~= Seq::<Frame<'a>>::empty());
    assert(scope_behind(lowest.drop_last(), GLOBALS) == GLOBALS);
    if frames.len() == 1 {
        assert(lowest =~= frames);
    } else {
        assert(!(frames[frames.len() - 1] is Program));
        let rest = frames.drop_last();
        assert(program_is_lowest(rest)) by {
            assert forall|k: int| 0 <= k < rest.len() implies ((#[trigger] rest[k]) is Program <==> k == 0) by {
                assert(rest[k] == frames[k]);
            }
        }
        program_frames_are_lowest(rest);
        assert(rest.take(1) =~= lowest);
    }
}

/// The scope behind the frames is the scope behind those below the
/// nearest boundary of a call, whatever scope is current.
pub proof fn behind_the_boundary<'a>(frames: Seq<Frame<'a>>, current: usize)
    requires
        boundary_frames(frames).len() > 0,
        boundary_frames(frames).last() is Call,
    ensures
        scope_behind(frames, current) == scope_behind(
            boundary_frames(frames).drop_last(),
            boundary_frames(frames).last()->Call_0.back,
        ),
    decreases frames.len(),
{
    if frames.len() > 0 && !(frames.last() is Program || frames.last() is Call) {
        behind_the_boundary(
            frames.drop_last(),
            match frames.last() {
                Frame::Restore(entry) => entry.back,
                _ => current,
            },
        );
    }
}

/// The frames up to a boundary are the first of the frames, and end in
/// the boundary.
pub proof fn boundary_frames_shape<'a>(frames: Seq<Frame<'a>>)
    ensures
        boundary_frames(frames).len() <= frames.len(),
        forall|k: int| 0 <= k < boundary_frames(frames).len() ==> #[trigger] boundary_frames(frames)[k] == frames[k],
        boundary_frames(frames).len() > 0 ==> boundary_frames(frames).last() is Program || boundary_frames(
            frames,
        ).last() is Call,
        frames.len() > 0 && frames[0] is Program ==> boundary_frames(frames).len() > 0,
    decreases frames.len(),
{
    if frames.len() > 0 && !(frames.last() is Program || frames.last() is Call) {
        boundary_frames_shape(frames.drop_last());
    }
}

/// An error restores the global scope.
pub proof fn raise_restores_scopes<'a>(state: State<'a>, message: Seq<char>)
    requires
        program_is_lowest(state.frames),
    ensures
        scopes_restored(raise(state, message)),
{
    program_frames_are_lowest(state.frames);
}

/// A return restores the scope of the caller.
pub proof fn leave_restores_scopes<'a>(state: State<'a>, value: crate::values::ValueView)
    requires
        scopes_restored(state),
    ensures
        scopes_restored(leave(state, value)),
{
    boundary_frames_shape(state.frames);
    let frames = boundary_frames(state.frames);
    assert(frames[0] == state.frames[0]);
    assert(frames[frames.len() - 1] == state.frames[frames.len() - 1]);
    if frames.last() is Call {
        behind_the_boundary(state.frames, state.current);
        let rest = frames.drop_last();
        assert(program_is_lowest(rest)) by {
            assert forall|k: int| 0 <= k < rest.len() implies ((#[trigger] rest[k]) is Program <==> k == 0) by {
                assert(rest[k] == state.frames[k]);
            }
        }
    } else {
        assert(frames.len() == 1);
        assert(frames.drop_last() =~= Seq::<Frame<'a>>::empty());
        assert(scope_behind(frames.drop_last(), GLOBALS) == GLOBALS);
        assert(program_is_lowest(frames));
    }
}

/// Every step keeps the scopes restored: a block and a call go back to
/// the scope from which they were entered, on every path, and every
/// statement of the program starts in the global scope.
pub proof fn step_keeps_scopes_restored<'a>(before: State<'a>, answer: Answer)
    requires
        scopes_restored(before),
    ensures
        scopes_restored(step(before, answer).state),
        before.frames.last() is Program ==> before.current == GLOBALS,
{
    let frames = before.frames.drop_last();
    let frame = before.frames.last();
    let state = State { frames, ..before };
    let after = step(before, answer).state;
    assert(before.frames =~= frames.push(frame));
    behind_with_frame(frames, frame, before.current);
    if frames.len() == 0 {
        assert(frame == before.frames[0]);
        match frame {
            Frame::Program(next) => {
                if next < before.stmts@.len() {
                    let first = Frame::Program((next + 1) as usize);
                    let second = Frame::Exec(&before.stmts@[next as int]);
                    behind_with_frame(frames, first, before.current);
                    behind_with_frame(frames.push(first), second, before.current);
                    assert(after.frames == frames.push(first).push(second));
                }
            },
            _ => {},
        }
    } else {
        assert(!(frame is Program)) by {
            assert(frame == before.frames[before.frames.len() - 1]);
        }
        assert(program_is_lowest(frames)) by {
            assert forall|k: int| 0 <= k < frames.len() implies ((#[trigger] frames[k]) is Program <==> k == 0) by {
                assert(frames[k] == before.frames[k]);
            }
        }
        raise_restores_scopes(state, after.errors.last());
        let popped = State { values: crate::machine::below_top(state.values), ..state };
        match frame {
            Frame::Exec(statement) => {
                execute_restores_scopes(state, statement);
            },
            Frame::Return => {
                leave_restores_scopes(popped, crate::machine::top(state.values));
            },
            Frame::Invoke(paren, count) => {
                invoke_restores_scopes(before, state, paren, count, answer);
            },
            _ => {
                others_restore_scopes(before, answer);
            },
        }
    }
}

/// A frame pushed on frames of which the program is the lowest leaves it
/// the lowest, unless it is a frame of that kind.
pub proof fn lowest_with_frame<'a>(frames: Seq<Frame<'a>>, frame: Frame<'a>)
    requires
        program_is_lowest(frames),
        !(frame is Program),
    ensures
        program_is_lowest(frames.push(frame)),
{
    assert forall|k: int| 0 <= k < frames.push(frame).len() implies ((#[trigger] frames.push(frame)[k]) is Program
        <==> k == 0) by {
        if k < frames.len() {
            assert(frames.push(frame)[k] == frames[k]);
        }
    }
}

/// A statement keeps the scopes restored.
pub proof fn execute_restores_scopes<'a>(state: State<'a>, statement: &'a crate::statements::Stmt)
    requires
        scopes_restored(state),
    ensures
        scopes_restored(execute(state, statement)),
{
    let frames = state.frames;
    let after = execute(state, statement);
    match statement {
        crate::statements::Stmt::Return(_, None) => {
            leave_restores_scopes(state, crate::values::ValueView::Nil);
        },
        crate::statements::Stmt::Block(list) => {
            two_frames_restore(frames, Frame::Restore(crate::machine::entry_of(state)), Frame::Sequence(list, 0), after.current);
        },
        _ => {
            if after.frames.len() == frames.len() + 2 {
                let first = after.frames[frames.len() as int];
                let second = after.frames[(frames.len() + 1) as int];
                assert(after.frames =~= frames.push(first).push(second));
                two_frames_restore(frames, first, second, state.current);
            } else {
                assert(after.frames == frames);
            }
        },
    }
}

/// Two frames pushed, neither that of the program.
pub proof fn two_frames_restore<'a>(frames: Seq<Frame<'a>>, first: Frame<'a>, second: Frame<'a>, current: usize)
    requires
        program_is_lowest(frames),
        !(first is Program),
        !(second is Program),
    ensures
        program_is_lowest(frames.push(first).push(second)),
        scope_behind(frames.push(first).push(second), current) == scope_behind(
            frames,
            match first {
                Frame::Restore(entry) => entry.back,
                Frame::Call(entry, _) => entry.back,
                _ => match second {
                    Frame::Restore(entry) => entry.back,
                    Frame::Call(entry, _) => entry.back,
                    _ => current,
                },
            },
        ),
{
    lowest_with_frame(frames, first);
    lowest_with_frame(frames.push(first), second);
    behind_with_frame(frames.push(first), second, current);
    behind_with_frame(
        frames,
        first,
        match second {
            Frame::Restore(entry) => entry.back,
            Frame::Call(entry, _) => entry.back,
            _ => current,
        },
    );
}

/// A call keeps the scopes restored.
pub proof fn invoke_restores_scopes<'a>(
    before: State<'a>,
    state: State<'a>,
    paren: &'a crate::tokens::Token,
    count: usize,
    answer: Answer,
)
    requires
        scopes_restored(before),
        scopes_restored(state),
    ensures
        scopes_restored(invoke(before, state, paren, count, answer).state),
{
    let after = invoke(before, state, paren, count, answer).state;
    if after == before {
    } else if after.errors.len() > state.errors.len() {
        raise_restores_scopes(state, after.errors.last());
    } else if after.frames.len() == state.frames.len() + 2 {
        let first = after.frames[state.frames.len() as int];
        let second = after.frames[(state.frames.len() + 1) as int];
        assert(after.frames =~= state.frames.push(first).push(second));
        two_frames_restore(state.frames, first, second, after.current);
    }
}

/// The frames that neither execute a statement, nor return, nor call,
/// keep the scopes restored.
pub proof fn others_restore_scopes<'a>(before: State<'a>, answer: Answer)
    requires
        scopes_restored(before),
        before.frames.len() > 1,
        !(before.frames.last() is Program),
        !(before.frames.last() is Exec),
        !(before.frames.last() is Return),
        !(before.frames.last() is Invoke),
        program_is_lowest(before.frames.drop_last()),
    ensures
        scopes_restored(step(before, answer).state),
{
    let frames = before.frames.drop_last();
    let frame = before.frames.last();
    let state = State { frames, ..before };
    let after = step(before, answer).state;
    assert(before.frames =~= frames.push(frame));
    behind_with_frame(frames, frame, before.current);
    if after.errors.len() > before.errors.len() {
        raise_restores_scopes(state, after.errors.last());
    } else if after.frames.len() == frames.len() + 1 {
        let first = after.frames[frames.len() as int];
        assert(after.frames =~= frames.push(first));
        lowest_with_frame(frames, first);
        behind_with_frame(frames, first, after.current);
    } else if after.frames.len() == frames.len() + 2 {
        let first = after.frames[frames.len() as int];
        let second = after.frames[(frames.len() + 1) as int];
        assert(after.frames =~= frames.push(first).push(second));
        two_frames_restore(frames, first, second, after.current);
    } else if after.frames.len() == frames.len() + 3 {
        let first = after.frames[frames.len() as int];
        let second = after.frames[(frames.len() + 1) as int];
        let third = after.frames[(frames.len() + 2) as int];
        assert(after.frames =~= frames.push(first).push(second).push(third));
        two_frames_restore(frames, first, second, after.current);
        lowest_with_frame(frames.push(first).push(second), third);
        behind_with_frame(frames.push(first).push(second), third, after.current);
    }
}

/// The scopes stay restored over any number of steps.
pub proof fn run_keeps_scopes_restored<'a>(state: State<'a>, answer: Answer, budget: nat)
    requires
        scopes_restored(state),
    ensures
        scopes_restored(run(state, answer, budget).state),
    decreases budget,
{
    if budget > 0 {
        step_keeps_scopes_restored(state, answer);
        let first = step(state, answer);
        if first.request is Continue {
            run_keeps_scopes_restored(first.state, Answer::Nothing, (budget - 1) as nat);
        }
    }
}

} // verus!
