use galaxy_sim::config::Mode;
use galaxy_sim::control::{on_frame_inputs, on_input, Input};

#[test]
fn single_inputs() {
    assert_eq!(on_input(Mode::Single, Input::Quit), None);
    assert_eq!(on_input(Mode::Parallel, Input::EscapeKey), None);
    assert_eq!(on_input(Mode::Single, Input::ParallelKey), Some(Mode::Parallel));
    assert_eq!(on_input(Mode::Parallel, Input::SingleKey), Some(Mode::Single));
    assert_eq!(on_input(Mode::Parallel, Input::Other), Some(Mode::Parallel));
    assert_eq!(on_input(Mode::Single, Input::Other), Some(Mode::Single));
}

#[test]
fn a_frame_without_events_keeps_the_mode() {
    assert_eq!(on_frame_inputs(Mode::Parallel, &vec![]), Some(Mode::Parallel));
}

#[test]
fn the_last_mode_key_of_a_frame_wins() {
    let inputs = vec![Input::ParallelKey, Input::Other, Input::SingleKey];
    assert_eq!(on_frame_inputs(Mode::Parallel, &inputs), Some(Mode::Single));
    let inputs = vec![Input::SingleKey, Input::ParallelKey, Input::Other];
    assert_eq!(on_frame_inputs(Mode::Single, &inputs), Some(Mode::Parallel));
}

#[test]
fn a_quit_ends_the_frame_whatever_follows() {
    let inputs = vec![Input::SingleKey, Input::Quit, Input::ParallelKey];
    assert_eq!(on_frame_inputs(Mode::Parallel, &inputs), None);
    let inputs = vec![Input::Other, Input::EscapeKey];
    assert_eq!(on_frame_inputs(Mode::Single, &inputs), None);
}
