//! Extensions for futures. A future is polled by its executor; what is decided about
//! the outcome of a poll stands here.

use super::logging::{Level, Location};
use super::result_ext::{Logged, ResultExt};
use core::fmt::Debug;
use core::future::Future;
use core::time::Duration;
use vstd::prelude::*;

verus! {

/// What a poll of a future found.
#[derive(Debug, PartialEq, Eq)]
pub enum Poll<T> {
    Ready(T),
    Pending,
}

/// Extensions for futures that resolve to a result.
pub trait TryFutureExt: Sized {
    /// Logs the error that the future may resolve to.
    fn log_err(self, caller: Location<'static>) -> (logging: LogErrorFuture<Self>)
        ensures
            logging == (LogErrorFuture { future: self, level: Level::Error, location: caller }),
    ;

    /// Logs the error that the future may resolve to, as one seen at `location`.
    fn log_tracked_err(self, location: Location<'static>) -> (logging: LogErrorFuture<Self>)
        ensures
            logging == (LogErrorFuture { future: self, level: Level::Error, location }),
    ;

    /// Logs the error that the future may resolve to as a warning.
    fn warn_on_err(self, caller: Location<'static>) -> (logging: LogErrorFuture<Self>)
        ensures
            logging == (LogErrorFuture { future: self, level: Level::Warn, location: caller }),
    ;

    /// Unwraps what the future resolves to.
    fn unwrap(self) -> (unwrapping: UnwrapFuture<Self>)
        ensures
            unwrapping == (UnwrapFuture { future: self }),
    ;
}

impl<F, T, E> TryFutureExt for F where F: Future<Output = Result<T, E>>, E: Debug {
    fn log_err(self, caller: Location<'static>) -> LogErrorFuture<Self> {
        LogErrorFuture { future: self, level: Level::Error, location: caller }
    }

    fn log_tracked_err(self, location: Location<'static>) -> LogErrorFuture<Self> {
        LogErrorFuture { future: self, level: Level::Error, location }
    }

    fn warn_on_err(self, caller: Location<'static>) -> LogErrorFuture<Self> {
        LogErrorFuture { future: self, level: Level::Warn, location: caller }
    }

    fn unwrap(self) -> UnwrapFuture<Self> {
        UnwrapFuture { future: self }
    }
}

/// A future whose error is logged.
#[must_use]
pub struct LogErrorFuture<F> {
    pub future: F,
    pub level: Level,
    pub location: Location<'static>,
}

impl<F> LogErrorFuture<F> {
    /// What comes of a poll of the inner future.
    pub fn poll<T, E: Debug>(&self, polled: Poll<Result<T, E>>) -> (out: Poll<Logged<T, E>>)
        ensures
            match polled {
                Poll::Ready(outcome) => out matches Poll::Ready(logged) && logged.stems_from(
                    outcome,
                    self.location,
                    self.level,
                ),
                Poll::Pending => out is Pending,
            },
    {
        match polled {
            Poll::Ready(outcome) => Poll::Ready(
                outcome.log_with_level(self.level, self.location),
            ),
            Poll::Pending => Poll::Pending,
        }
    }
}

/// A future whose result is unwrapped.
pub struct UnwrapFuture<F> {
    pub future: F,
}

impl<F> UnwrapFuture<F> {
    /// What comes of a poll of the inner future, which must not resolve to an error.
    pub fn poll<T, E: Debug>(&self, polled: Poll<Result<T, E>>) -> (out: Poll<T>)
        requires
            polled matches Poll::Ready(outcome) ==> outcome is Ok,
        ensures
            match polled {
                Poll::Ready(outcome) => out == Poll::Ready(outcome->Ok_0),
                Poll::Pending => out is Pending,
            },
    {
        match polled {
            Poll::Ready(outcome) => Poll::Ready(outcome.unwrap()),
            Poll::Pending => Poll::Pending,
        }
    }
}

/// Extensions for Future types that provide additional combinators and utilities.
pub trait FutureExt: Sized {
    /// Requires a Future to complete before the specified duration has elapsed. The
    /// executor's `start_timer` makes the timer.
    fn with_timeout<Timer, Start: FnOnce(Duration) -> Timer>(
        self,
        timeout: Duration,
        start_timer: Start,
    ) -> (limited: WithTimeout<Self, Timer>)
        requires
            call_requires(start_timer, (timeout,)),
        ensures
            limited.future == self,
            call_ensures(start_timer, (timeout,), limited.timer),
    ;
}

impl<T: Future> FutureExt for T {
    fn with_timeout<Timer, Start: FnOnce(Duration) -> Timer>(
        self,
        timeout: Duration,
        start_timer: Start,
    ) -> WithTimeout<Self, Timer> {
        WithTimeout { future: self, timer: start_timer(timeout) }
    }
}

/// A future that has to resolve before its timer does.
pub struct WithTimeout<T, Timer> {
    pub future: T,
    pub timer: Timer,
}

/// Error returned by with_timeout when the timeout duration elapsed before the
/// future resolved.
#[derive(Clone, Copy, Debug, PartialEq, Eq, Structural)]
pub struct Timeout;

impl Timeout {
    /// What the error says.
    pub fn message(&self) -> (message: &'static str)
        ensures
            message@ == "Timed out before future resolved"@,
    {
        "Timed out before future resolved"
    }
}

/// What comes of a poll: the output of a future that is ready, whatever the timer
/// says; else a timeout, if the timer is ready; else nothing yet.
pub open spec fn timed<O>(future: Poll<O>, timer: Poll<()>) -> Poll<Result<O, Timeout>> {
    match (future, timer) {
        (Poll::Ready(output), _) => Poll::Ready(Ok(output)),
        (Poll::Pending, Poll::Ready(_)) => Poll::Ready(Err(Timeout)),
        (Poll::Pending, Poll::Pending) => Poll::Pending,
    }
}

impl<T, Timer> WithTimeout<T, Timer> {
    /// What comes of a poll of the inner future. Only where that is still pending is
    /// the timer polled, by `poll_timer`.
    pub fn poll<O>(polled: Poll<O>, poll_timer: impl FnOnce() -> Poll<()>) -> (out: Poll<
        Result<O, Timeout>,
    >)
        requires
            polled is Pending ==> call_requires(poll_timer, ()),
        ensures
            polled matches Poll::Ready(output) ==> out == Poll::<Result<O, Timeout>>::Ready(
                Ok(output),
            ),
            polled is Pending ==> exists|timer: Poll<()>|
                call_ensures(poll_timer, (), timer) && out == #[trigger] timed(polled, timer),
    {
        match polled {
            Poll::Ready(output) => Poll::Ready(Ok(output)),
            Poll::Pending => {
                let timer = poll_timer();
                let out = match timer {
                    Poll::Ready(_) => Poll::Ready(Err(Timeout)),
                    Poll::Pending => Poll::Pending,
                };
                assert(out == timed(polled, timer));
                out
            },
        }
    }
}

/// Which side of a race between a timer and a future came in first.
#[derive(Debug, PartialEq, Eq)]
pub enum Winner<T> {
    Timer,
    Future(T),
}

/// What a future that was given until the timer rings is worth: its output if it came
/// in first.
pub fn smol_timeout<T>(winner: Winner<T>) -> (output: Result<T, ()>)
    ensures
        output == (match winner {
            Winner::Future(value) => Ok::<T, ()>(value),
            Winner::Timer => Err(()),
        }),
{
    match winner {
        Winner::Future(value) => Ok(value),
        Winner::Timer => Err(()),
    }
}

/// A timeout is reported only for a future that was still pending when its timer
/// rang, and a future that is ready never times out.
pub proof fn law_timeout_only_when_late<O>(future: Poll<O>, timer: Poll<()>)
    ensures
        timed(future, timer) == Poll::<Result<O, Timeout>>::Ready(Err(Timeout)) <==> future
            is Pending && timer is Ready,
        timed(future, timer) is Pending <==> future is Pending && timer is Pending,
        future matches Poll::Ready(output) ==> timed(future, timer) == Poll::<
            Result<O, Timeout>,
        >::Ready(Ok(output)),
{
}

} // verus!
