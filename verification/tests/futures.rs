use gpui_utils::utils::future_ext::Winner;
use gpui_utils::utils::{
    smol_timeout, FutureExt, Level, Location, PathStyle, Poll, Timeout, TryFutureExt, WithTimeout,
};
use std::cell::Cell;
use std::future::{ready, Ready};
use std::time::Duration;

fn here() -> Location<'static> {
    Location { file: "crates/gpui/src/utils.rs", line: 3, style: PathStyle::Posix }
}

#[test]
fn logging_future_remembers_level_and_place() {
    let logging = ready(Ok::<u32, String>(1)).log_err(here());
    assert_eq!(logging.level, Level::Error);
    assert_eq!(logging.location.line, 3);
    assert_eq!(logging.future.into_inner(), Ok(1));
    assert_eq!(ready(Ok::<u32, String>(1)).log_tracked_err(here()).level, Level::Error);
    assert_eq!(ready(Ok::<u32, String>(1)).warn_on_err(here()).level, Level::Warn);
}

#[test]
fn logging_future_turns_results_into_options() {
    let logging = ready(Ok::<u32, String>(1)).warn_on_err(here());
    match logging.poll(Poll::Ready(Ok::<u32, String>(1))) {
        Poll::Ready(logged) => {
            assert_eq!(logged.value, Some(1));
            assert!(logged.record.is_none());
        }
        Poll::Pending => panic!("the future was ready"),
    }
    match logging.poll(Poll::Ready(Err::<u32, String>("no".to_string()))) {
        Poll::Ready(logged) => {
            assert_eq!(logged.value, None);
            let record = logged.record.unwrap();
            assert_eq!(record.level, Level::Warn);
            assert_eq!(record.error, "no");
            assert_eq!(record.module.as_deref(), Some("gpui::utils"));
        }
        Poll::Pending => panic!("the future was ready"),
    }
    assert!(matches!(logging.poll(Poll::<Result<u32, String>>::Pending), Poll::Pending));
}

#[test]
fn unwrapping_future_unwraps() {
    let unwrapping = TryFutureExt::unwrap(ready(Ok::<u32, String>(1)));
    assert_eq!(unwrapping.poll(Poll::Ready(Ok::<u32, String>(1))), Poll::Ready(1));
    assert_eq!(unwrapping.poll(Poll::<Result<u32, String>>::Pending), Poll::Pending);
}

#[test]
fn timeout_is_handed_to_the_executor() {
    let limited = ready(1u32).with_timeout(Duration::from_secs(6000), |duration| duration.as_secs());
    assert_eq!(limited.timer, 6000);
    assert_eq!(limited.future.into_inner(), 1);
}

type Limited = WithTimeout<Ready<u32>, ()>;

#[test]
fn ready_future_beats_its_timer() {
    let asked = Cell::new(false);
    let out = Limited::poll(Poll::Ready(7), || {
        asked.set(true);
        Poll::Ready(())
    });
    assert_eq!(out, Poll::Ready(Ok(7)));
    assert!(!asked.get());
}

#[test]
fn late_future_times_out() {
    let out = Limited::poll(Poll::<u32>::Pending, || Poll::Ready(()));
    assert_eq!(out, Poll::Ready(Err(Timeout)));
}

#[test]
fn both_pending_is_pending() {
    let out = Limited::poll(Poll::<u32>::Pending, || Poll::Pending);
    assert_eq!(out, Poll::Pending);
}

#[test]
fn timeout_tells_what_happened() {
    assert_eq!(Timeout.message(), "Timed out before future resolved");
}

#[test]
fn race_against_the_timer() {
    assert_eq!(smol_timeout(Winner::Future(5)), Ok(5));
    assert_eq!(smol_timeout(Winner::<u32>::Timer), Err(()));
}
