//! Extensions and helpers that do not belong to any one part of the framework.

pub mod counter;
pub mod deferred;
pub mod fluent;
pub mod future_ext;
pub mod logging;
pub mod measurement;
pub mod paths;
pub mod result_ext;
pub mod text;

pub use counter::{atomic_incr_if_not_zero, post_inc};
pub use deferred::{defer, Deferred};
pub use fluent::FluentBuilder;
pub use future_ext::{
    smol_timeout, FutureExt, LogErrorFuture, Poll, Timeout, TryFutureExt, UnwrapFuture,
    WithTimeout,
};
pub use logging::{log_error_with_caller, Level, Location, LogRecord, PathStyle};
pub use measurement::measure;
pub use paths::{SanitizedPath, SharedSanitizedPath};
pub use result_ext::{Logged, ResultExt};
