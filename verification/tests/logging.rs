use gpui_utils::utils::result_ext::assertion_message;
use gpui_utils::utils::{log_error_with_caller, Level, Location, PathStyle, ResultExt};

fn at(file: &'static str) -> Location<'static> {
    Location { file, line: 17, style: PathStyle::Posix }
}

fn on_windows(file: &'static str) -> Location<'static> {
    Location { file, line: 17, style: PathStyle::Windows }
}

#[test]
fn record_names_the_crate_and_the_module() {
    let record = log_error_with_caller(at("crates/gpui/src/utils/paths.rs"), "oops", Level::Warn);
    assert_eq!(record.level, Level::Warn);
    assert_eq!(record.target, "gpui");
    assert_eq!(record.module.as_deref(), Some("gpui::utils::paths"));
    assert_eq!(record.error, "oops");
    assert_eq!(record.file, "crates/gpui/src/utils/paths.rs");
    assert_eq!(record.line, 17);
}

#[test]
fn directories_above_the_crates_do_not_matter() {
    let record = log_error_with_caller(at("/home/me/zed/crates/editor/src/a/b.rs"), 1, Level::Error);
    assert_eq!(record.target, "editor");
    assert_eq!(record.module.as_deref(), Some("editor::a::b"));
}

#[test]
fn first_crates_directory_counts() {
    let record = log_error_with_caller(at("crates/a/crates/b/src/c.rs"), 1, Level::Error);
    assert_eq!(record.target, "a/crates/b");
    assert_eq!(record.module.as_deref(), Some("a/crates/b::c"));
    let record = log_error_with_caller(at("crates/a/src/b/src/c.rs"), 1, Level::Error);
    assert_eq!(record.target, "a");
    assert_eq!(record.module.as_deref(), Some("a::b::src::c"));
}

#[test]
fn every_extension_is_trimmed() {
    let record = log_error_with_caller(at("crates/a/src/b.rs.rs"), 1, Level::Error);
    assert_eq!(record.module.as_deref(), Some("a::b"));
    let record = log_error_with_caller(at("crates/a/src/.rs"), 1, Level::Error);
    assert_eq!(record.module.as_deref(), Some("a::"));
    let record = log_error_with_caller(at("crates/a/src/b.rsx"), 1, Level::Error);
    assert_eq!(record.module.as_deref(), Some("a::b.rsx"));
}

#[test]
fn file_outside_any_crate_has_no_target() {
    for file in ["", "src/main.rs", "crates/a/build.rs", "crates", "/src/crates/"] {
        let record = log_error_with_caller(at(file), 1, Level::Error);
        assert_eq!(record.target, "");
        assert_eq!(record.module, None);
    }
}

#[test]
fn backslashes_separate_on_windows_only() {
    let file = "C:\\zed\\crates\\gpui\\src\\utils\\paths.rs";
    let record = log_error_with_caller(on_windows(file), 1, Level::Error);
    assert_eq!(record.target, "gpui");
    assert_eq!(record.module.as_deref(), Some("gpui::utils::paths"));
    assert_eq!(record.file, file);
    let record = log_error_with_caller(at(file), 1, Level::Error);
    assert_eq!(record.target, "");
    assert_eq!(record.module, None);
    let slashed = "C:/zed/crates/gpui/src/utils/paths.rs";
    let record = log_error_with_caller(on_windows(slashed), 1, Level::Error);
    assert_eq!(record.target, "gpui");
}

#[test]
fn text_beyond_ascii_is_kept() {
    let record = log_error_with_caller(at("\u{e9}/crates/\u{4e16}/src/\u{1f600}.rs"), 1, Level::Info);
    assert_eq!(record.target, "\u{4e16}");
    assert_eq!(record.module.as_deref(), Some("\u{4e16}::\u{1f600}"));
}

#[test]
fn success_is_handed_on() {
    let logged = Ok::<u32, String>(3).log_err(at("crates/a/src/b.rs"));
    assert_eq!(logged.value, Some(3));
    assert!(logged.record.is_none());
}

#[test]
fn failure_is_logged_at_its_level() {
    let fail = || Err::<u32, String>("no".to_string());
    let logged = fail().log_err(at("crates/a/src/b.rs"));
    assert_eq!(logged.value, None);
    assert_eq!(logged.record.unwrap().level, Level::Error);
    let logged = fail().warn_on_err(at("crates/a/src/b.rs"));
    assert_eq!(logged.record.unwrap().level, Level::Warn);
    let logged = fail().log_with_level(Level::Trace, at("crates/a/src/b.rs"));
    let record = logged.record.unwrap();
    assert_eq!(record.level, Level::Trace);
    assert_eq!(record.error, "no");
    assert_eq!(record.target, "a");
    assert_eq!(record.module.as_deref(), Some("a::b"));
}

#[test]
fn assertion_tells_reason_and_error() {
    let (result, message) = Ok::<u32, String>(3).debug_assert_ok("must hold");
    assert_eq!(result, Ok(3));
    assert_eq!(message, None);
    let (result, message) = Err::<u32, String>("no".to_string()).debug_assert_ok("must hold");
    assert_eq!(result, Err("no".to_string()));
    assert_eq!(message.as_deref(), Some("must hold - \"no\""));
    assert_eq!(assertion_message("a", "b"), "a - b");
}

#[test]
fn errors_are_converted() {
    let kept = Ok::<u32, std::fmt::Error>(3).anyhow();
    assert_eq!(kept.unwrap(), 3);
    let converted = "x".parse::<u32>().anyhow();
    assert_eq!(
        converted.unwrap_err().to_string(),
        "x".parse::<u32>().unwrap_err().to_string()
    );
}
