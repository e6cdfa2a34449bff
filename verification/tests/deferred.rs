use gpui_utils::utils::defer;
use std::cell::Cell;

#[test]
fn deferred_function_runs_once() {
    let runs = Cell::new(0);
    let mut deferred = defer(|| runs.set(runs.get() + 1));
    assert_eq!(runs.get(), 0);
    deferred.run();
    assert_eq!(runs.get(), 1);
    deferred.run();
    assert_eq!(runs.get(), 1);
}

#[test]
fn aborted_function_never_runs() {
    let runs = Cell::new(0);
    let mut deferred = defer(|| runs.set(runs.get() + 1));
    deferred.abort();
    deferred.run();
    assert_eq!(runs.get(), 0);
}
