//! The decisions of the viewer's frame loop: which execution mode the next
//! step uses and when the loop ends, from the input events of one frame.
use crate::config::Mode;
use vstd::prelude::*;

verus! {

/// An input event, as far as the viewer reacts to it.
#[derive(Clone, Copy, Debug, PartialEq, Eq, Structural)]
pub enum Input {
    /// The window was closed.
    Quit,
    /// The Escape key went down.
    EscapeKey,
    /// The P key went down: switch to parallel steps.
    ParallelKey,
    /// The S key went down: switch to single-threaded steps.
    SingleKey,
    /// Anything else.
    Other,
}

/// The mode after one event, or `None` where the event ends the loop.
pub open spec fn after_input(mode: Mode, input: Input) -> Option<Mode> {
    match input {
        Input::Quit => None,
        Input::EscapeKey => None,
        Input::ParallelKey => Some(Mode::Parallel),
        Input::SingleKey => Some(Mode::Single),
        Input::Other => Some(mode),
    }
}

/// The mode after a frame's events taken in order, or `None` where one of
/// them ends the loop; the events after that one are not looked at.
pub open spec fn after_inputs(mode: Mode, inputs: Seq<Input>) -> Option<Mode>
    decreases inputs.len(),
{
    if inputs.len() == 0 {
        Some(mode)
    } else {
        match after_input(mode, inputs[0]) {
            None => None,
            Some(m) => after_inputs(m, inputs.drop_first()),
        }
    }
}

/// The mode after one event, or `None` where the event ends the loop.
pub fn on_input(mode: Mode, input: Input) -> (r: Option<Mode>)
    ensures
        r == after_input(mode, input),
{
    match input {
        Input::Quit => None,
        Input::EscapeKey => None,
        Input::ParallelKey => Some(Mode::Parallel),
        Input::SingleKey => Some(Mode::Single),
        Input::Other => Some(mode),
    }
}

/// The mode for the next step after the events polled in one frame, or
/// `None` where the viewer is to stop.
pub fn on_frame_inputs(mode: Mode, inputs: &Vec<Input>) -> (r: Option<Mode>)
    ensures
        r == after_inputs(mode, inputs@),
{
    let mut current = mode;
    let mut i: usize = 0;
    assert(inputs@.skip(0) =~= inputs@);
    while i < inputs.len()
        invariant
            i <= inputs@.len(),
            after_inputs(mode, inputs@) == after_inputs(current, inputs@.skip(i as int)),
        decreases inputs.len() - i,
    {
        let ghost rest = inputs@.skip(i as int);
        assert(rest[0] == inputs@[i as int]);
        assert(rest.drop_first() =~= inputs@.skip(i as int + 1));
        match on_input(current, inputs[i]) {
            None => {
                return None;
            },
            Some(m) => {
                current = m;
            },
        }
        i = i + 1;
    }
    assert(inputs@.skip(i as int) =~= Seq::<Input>::empty());
    Some(current)
}

} // verus!
