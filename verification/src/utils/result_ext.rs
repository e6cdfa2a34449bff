//! Turning failed results into log records, options and other errors.

use super::logging::{
    law_record_tells_all, law_style_is_about_separators, log_error_with_caller, slashed, Level,
    Location, LogRecord,
};
use core::fmt::Debug;
use vstd::prelude::*;
use vstd::string::StringExecFns;

verus! {

/// The error type that any error can be turned into.
#[verifier::external_type_specification]
#[verifier::external_body]
pub struct ExAnyhowError(anyhow::Error);

/// What is left of a result once its error went to the log: the value of a success,
/// or the record of a failure.
#[derive(Debug)]
pub struct Logged<T, E> {
    pub value: Option<T>,
    pub record: Option<LogRecord<'static, E>>,
}

impl<T, E> Logged<T, E> {
    /// Whether this is what is left of `outcome`, seen at `caller`: a value is handed
    /// on and nothing is logged, an error is logged and nothing is handed on.
    pub open spec fn stems_from(
        &self,
        outcome: Result<T, E>,
        caller: Location<'static>,
        level: Level,
    ) -> bool {
        match outcome {
            Ok(value) => self.value == Some(value) && self.record is None,
            Err(error) => self.value is None && self.record is Some && self.record->0.tells(
                caller,
                error,
                level,
            ),
        }
    }
}

/// `format!("{:?}", ..)` with the error's own `Debug` implementation, of which
/// nothing is known here.
#[verifier::external_body]
fn debug_text<E: Debug>(error: &E) -> (shown: String) {
    format!("{:?}", error)
}

/// Whether the error's own `Debug` implementation can have shown the error so.
pub closed spec fn shows<E: Debug>(error: E, shown: String) -> bool {
    call_ensures(debug_text::<E>, (&error,), shown)
}

/// What a failed assertion says: why it should not have failed, and the error as
/// `shown`.
pub open spec fn failure_message(reason: Seq<char>, shown: Seq<char>) -> Seq<char> {
    reason + " - "@ + shown
}

/// The message of an assertion that failed although `reason`, with the error as
/// `shown`.
pub fn assertion_message(reason: &str, shown: &str) -> (message: String)
    ensures
        message@ == failure_message(reason@, shown@),
{
    let mut message = reason.to_owned();
    message.append(" - ");
    message.append(shown);
    message
}

/// Extensions for results.
pub trait ResultExt<E>: Sized {
    type Ok;

    /// The result that is extended.
    spec fn outcome(self) -> Result<Self::Ok, E>;

    /// The value, or a record at the level of errors.
    fn log_err(self, caller: Location<'static>) -> (logged: Logged<Self::Ok, E>)
        ensures
            logged.stems_from(self.outcome(), caller, Level::Error),
    ;

    /// Assert that this result should never be an error in development or tests: the
    /// result itself, and the message to fail with if it is one.
    fn debug_assert_ok(self, reason: &str) -> (checked: (Self, Option<String>))
        ensures
            checked.0 == self,
            checked.1 is Some <==> self.outcome() is Err,
            checked.1 matches Some(message) ==> exists|shown: Seq<char>|
                message@ == #[trigger] failure_message(reason@, shown),
    ;

    /// The value, or a record at the level of warnings.
    fn warn_on_err(self, caller: Location<'static>) -> (logged: Logged<Self::Ok, E>)
        ensures
            logged.stems_from(self.outcome(), caller, Level::Warn),
    ;

    /// The value, or a record at the given level.
    fn log_with_level(self, level: Level, caller: Location<'static>) -> (logged: Logged<
        Self::Ok,
        E,
    >)
        ensures
            logged.stems_from(self.outcome(), caller, level),
    ;

    /// The result with its error converted.
    fn anyhow(self) -> (converted: Result<Self::Ok, anyhow::Error>) where E: Into<anyhow::Error>
        ensures
            self.outcome() matches Ok(value) ==> converted == Ok::<Self::Ok, anyhow::Error>(value),
            self.outcome() matches Err(error) ==> converted is Err && call_ensures(
                <E as Into<anyhow::Error>>::into,
                (error,),
                converted->Err_0,
            ),
    ;
}

impl<T, E> ResultExt<E> for Result<T, E> where E: Debug {
    type Ok = T;

    open spec fn outcome(self) -> Result<T, E> {
        self
    }

    fn log_err(self, caller: Location<'static>) -> Logged<T, E> {
        self.log_with_level(Level::Error, caller)
    }

    fn debug_assert_ok(self, reason: &str) -> (checked: (Self, Option<String>))
        ensures
            self matches Err(error) ==> checked.1 is Some && exists|shown: String| #[trigger]
                shows(error, shown) && checked.1->0@ == failure_message(reason@, shown@),
    {
        let message = match &self {
            Ok(_) => None,
            Err(error) => {
                let shown = debug_text(error);
                assert(shows(*error, shown));
                let message = assertion_message(reason, shown.as_str());
                assert(message@ == failure_message(reason@, shown@));
                Some(message)
            },
        };
        (self, message)
    }

    fn warn_on_err(self, caller: Location<'static>) -> Logged<T, E> {
        self.log_with_level(Level::Warn, caller)
    }

    fn log_with_level(self, level: Level, caller: Location<'static>) -> Logged<T, E> {
        match self {
            Ok(value) => Logged { value: Some(value), record: None },
            Err(error) => Logged {
                value: None,
                record: Some(log_error_with_caller(caller, error, level)),
            },
        }
    }

    fn anyhow(self) -> Result<T, anyhow::Error> where E: Into<anyhow::Error> {
        match self {
            Ok(value) => Ok(value),
            Err(error) => Err(error.into()),
        }
    }
}

/// A result ends in one place: what is handed on is not logged, and what is logged
/// is not handed on. The value of a success is handed on as it is, and the record of a
/// failure holds the error itself, the level asked for, and the place of the caller.
pub proof fn law_value_or_record<T, E>(
    logged: Logged<T, E>,
    outcome: Result<T, E>,
    caller: Location<'static>,
    level: Level,
)
    requires
        logged.stems_from(outcome, caller, level),
    ensures
        logged.value is Some <==> outcome is Ok,
        logged.record is Some <==> outcome is Err,
        logged.value is Some <==> logged.record is None,
        outcome matches Ok(value) ==> logged.value == Some(value),
        outcome matches Err(error) ==> {
            &&& logged.record->0.error == error
            &&& logged.record->0.level == level
            &&& logged.record->0.file@ == caller.file@
            &&& logged.record->0.line == caller.line
            &&& logged.record->0.tells(caller, error, level)
        },
{
    if let Err(error) = outcome {
        law_style_is_about_separators(caller.file@, caller.style);
        law_record_tells_all(
            logged.record->0,
            caller,
            error,
            level,
            slashed(caller.file@, caller.style),
        );
    }
}

/// A failed assertion says the reason first, then the error as it is shown, with a dash
/// between blanks in between, and nothing else.
pub proof fn law_message_says_reason_and_error(reason: Seq<char>, shown: Seq<char>)
    ensures
        failure_message(reason, shown) == reason + seq![' ', '-', ' '] + shown,
{
    reveal_strlit(" - ");
    assert(" - "@ =~= seq![' ', '-', ' ']);
}

/// An error is shown by its own `Debug` implementation and by nothing else.
proof fn law_errors_show_themselves<E: Debug>(error: E, shown: String)
    requires
        shows(error, shown),
    ensures
        call_ensures(debug_text::<E>, (&error,), shown),
{
}

} // verus!
