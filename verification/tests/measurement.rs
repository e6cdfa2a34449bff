use gpui_utils::utils::measure;
use gpui_utils::utils::measurement::{measurements_enabled, report_line, settle};

#[test]
fn only_one_and_true_enable_measurements() {
    assert!(measurements_enabled(Some("1")));
    assert!(measurements_enabled(Some("true")));
    for other in ["", "0", "2", "11", "TRUE", "true ", "yes"] {
        assert!(!measurements_enabled(Some(other)));
    }
    assert!(!measurements_enabled(None));
}

#[test]
fn first_setting_decides() {
    for first in [None, Some("0"), Some("1"), Some("true")] {
        let enabled = settle(None, first);
        assert_eq!(enabled, measurements_enabled(first));
        for later in [None, Some("0"), Some("1")] {
            assert_eq!(settle(Some(enabled), later), enabled);
        }
    }
}

#[test]
fn measured_function_is_reported() {
    let (result, line) = measure(true, "work", || 3);
    assert_eq!(result, 3);
    let line = line.unwrap();
    assert!(line.starts_with("work: "));
    assert!(line.ends_with('s'));
}

#[test]
fn unmeasured_function_just_runs() {
    let (result, line) = measure(false, "work", || 3);
    assert_eq!(result, 3);
    assert_eq!(line, None);
}

#[test]
fn report_shows_label_and_duration() {
    assert_eq!(report_line("work", 2, 500_000_000), "work: 2.5s");
    assert_eq!(report_line("", 0, 0), ": 0ns");
    assert_eq!(report_line("x", 0, 1_500_000), "x: 1.5ms");
}
