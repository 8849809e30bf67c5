//! The run configuration chosen once at start-up: how each step is executed
//! and which task drives the simulation.
use vstd::prelude::*;

verus! {

/// How a step computes the next state.
#[derive(Clone, Copy, Debug, PartialEq, Eq, Structural)]
pub enum Mode {
    /// On the calling thread, in index order.
    Single,
    /// Slots computed concurrently on the worker pool.
    Parallel,
}

/// What the program does with the simulation.
#[derive(Clone, Copy, Debug, PartialEq, Eq, Structural)]
pub enum Task {
    /// Time a fixed number of steps.
    Bench,
    /// Draw every step in a window.
    Visualize,
}

/// The lower-case form of a text, as `str::to_lowercase` gives it.
pub uninterp spec fn lower_of(s: Seq<char>) -> Seq<char>;

/// Relies on `str::to_lowercase`: its result depends on the characters of
/// `s` alone.
#[verifier::external_body]
fn lowercase(s: &str) -> (r: String)
    ensures
        r@ == lower_of(s@),
{
    s.to_lowercase()
}

/// The mode that a lower-case name selects.
pub open spec fn mode_named(name: Seq<char>) -> Option<Mode> {
    if name == "single"@ {
        Some(Mode::Single)
    } else if name == "parallel"@ {
        Some(Mode::Parallel)
    } else {
        None
    }
}

/// The task that a lower-case name selects.
pub open spec fn task_named(name: Seq<char>) -> Option<Task> {
    if name == "bench"@ {
        Some(Task::Bench)
    } else if name == "visualize"@ {
        Some(Task::Visualize)
    } else {
        None
    }
}

/// Whether two texts hold the same characters.
fn same_chars(a: &str, b: &str) -> (r: bool)
    ensures
        r == (a@ == b@),
{
    let n = a.unicode_len();
    if n != b.unicode_len() {
        return false;
    }
    let mut i: usize = 0;
    while i < n
        invariant
            n == a@.len(),
            n == b@.len(),
            i <= n,
            a@.subrange(0, i as int) == b@.subrange(0, i as int),
        decreases n - i,
    {
        if a.get_char(i) != b.get_char(i) {
            assert(a@.subrange(0, i as int + 1)[i as int] != b@.subrange(0, i as int + 1)[i as int]);
            return false;
        }
        assert(a@.subrange(0, i as int + 1) =~= a@.subrange(0, i as int).push(a@[i as int]));
        assert(b@.subrange(0, i as int + 1) =~= b@.subrange(0, i as int).push(b@[i as int]));
        i = i + 1;
    }
    assert(a@ =~= a@.subrange(0, n as int));
    assert(b@ =~= b@.subrange(0, n as int));
    true
}

/// Reads a mode name that is already in lower case.
pub fn mode_from_lowered(name: &str) -> (r: Option<Mode>)
    ensures
        r == mode_named(name@),
{
    if same_chars(name, "single") {
        Some(Mode::Single)
    } else if same_chars(name, "parallel") {
        Some(Mode::Parallel)
    } else {
        None
    }
}

/// Reads a task name that is already in lower case.
pub fn task_from_lowered(name: &str) -> (r: Option<Task>)
    ensures
        r == task_named(name@),
{
    if same_chars(name, "bench") {
        Some(Task::Bench)
    } else if same_chars(name, "visualize") {
        Some(Task::Visualize)
    } else {
        None
    }
}

/// Reads a mode name in any letter case: `single` or `parallel`; `None`
/// for anything else.
pub fn parse_mode(name: &str) -> (r: Option<Mode>)
    ensures
        r == mode_named(lower_of(name@)),
{
    let lowered = lowercase(name);
    mode_from_lowered(lowered.as_str())
}

/// Reads a task name in any letter case: `bench` or `visualize`; `None`
/// for anything else.
pub fn parse_task(name: &str) -> (r: Option<Task>)
    ensures
        r == task_named(lower_of(name@)),
{
    let lowered = lowercase(name);
    task_from_lowered(lowered.as_str())
}

} // verus!
