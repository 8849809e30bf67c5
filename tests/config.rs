use galaxy_sim::config::{mode_from_lowered, parse_mode, parse_task, task_from_lowered, Mode, Task};

#[test]
fn mode_names_in_lower_case() {
    assert_eq!(parse_mode("single"), Some(Mode::Single));
    assert_eq!(parse_mode("parallel"), Some(Mode::Parallel));
}

#[test]
fn mode_names_in_any_case() {
    assert_eq!(parse_mode("SINGLE"), Some(Mode::Single));
    assert_eq!(parse_mode("Parallel"), Some(Mode::Parallel));
    assert_eq!(parse_mode("pArAlLeL"), Some(Mode::Parallel));
}

#[test]
fn unknown_mode_names_are_refused() {
    assert_eq!(parse_mode(""), None);
    assert_eq!(parse_mode("threads"), None);
    assert_eq!(parse_mode("single "), None);
    assert_eq!(parse_mode("singl"), None);
}

#[test]
fn lowered_mode_reader_is_case_sensitive() {
    assert_eq!(mode_from_lowered("single"), Some(Mode::Single));
    assert_eq!(mode_from_lowered("Single"), None);
    assert_eq!(mode_from_lowered("PARALLEL"), None);
}

#[test]
fn task_names() {
    assert_eq!(parse_task("bench"), Some(Task::Bench));
    assert_eq!(parse_task("Visualize"), Some(Task::Visualize));
    assert_eq!(parse_task("BENCH"), Some(Task::Bench));
    assert_eq!(parse_task("draw"), None);
    assert_eq!(parse_task(""), None);
    assert_eq!(task_from_lowered("visualize"), Some(Task::Visualize));
    assert_eq!(task_from_lowered("Bench"), None);
}
