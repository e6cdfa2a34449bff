//! Building objects in a fluent style.

use vstd::prelude::*;

verus! {

/// A helper trait for building complex objects with imperative conditionals in a
/// fluent style.
pub trait FluentBuilder: Sized {
    /// Imperatively modify self with the given closure.
    fn map<U>(self, f: impl FnOnce(Self) -> U) -> (built: U)
        requires
            call_requires(f, (self,)),
        ensures
            call_ensures(f, (self,), built),
    {
        f(self)
    }

    /// Conditionally modify self with the given closure.
    fn when(self, condition: bool, modify: impl FnOnce(Self) -> Self) -> (built: Self)
        requires
            condition ==> call_requires(modify, (self,)),
        ensures
            condition ==> call_ensures(modify, (self,), built),
            !condition ==> built == self,
    {
        self.map(
            |this: Self| -> (built: Self)
                requires
                    condition ==> call_requires(modify, (this,)),
                ensures
                    condition ==> call_ensures(modify, (this,), built),
                    !condition ==> built == this
            {
                if condition {
                    modify(this)
                } else {
                    this
                }
            },
        )
    }

    /// Modify self with the one closure or the other.
    fn when_else(
        self,
        condition: bool,
        modify: impl FnOnce(Self) -> Self,
        else_fn: impl FnOnce(Self) -> Self,
    ) -> (built: Self)
        requires
            condition ==> call_requires(modify, (self,)),
            !condition ==> call_requires(else_fn, (self,)),
        ensures
            condition ==> call_ensures(modify, (self,), built),
            !condition ==> call_ensures(else_fn, (self,), built),
    {
        self.map(
            |this: Self| -> (built: Self)
                requires
                    condition ==> call_requires(modify, (this,)),
                    !condition ==> call_requires(else_fn, (this,)),
                ensures
                    condition ==> call_ensures(modify, (this,), built),
                    !condition ==> call_ensures(else_fn, (this,), built)
            {
                if condition {
                    modify(this)
                } else {
                    else_fn(this)
                }
            },
        )
    }

    /// Unwrap the option and modify self with the given closure, if the given option
    /// is Some.
    fn when_some<T>(self, option: Option<T>, modify: impl FnOnce(Self, T) -> Self) -> (built: Self)
        requires
            option matches Some(value) ==> call_requires(modify, (self, value)),
        ensures
            option matches Some(value) ==> call_ensures(modify, (self, value), built),
            option is None ==> built == self,
    {
        self.map(
            |this: Self| -> (built: Self)
                requires
                    option matches Some(value) ==> call_requires(modify, (this, value)),
                ensures
                    option matches Some(value) ==> call_ensures(modify, (this, value), built),
                    option is None ==> built == this
            {
                if let Some(value) = option {
                    modify(this, value)
                } else {
                    this
                }
            },
        )
    }

    /// Modify self with the given closure, if the given option is None.
    fn when_none<T>(self, option: &Option<T>, modify: impl FnOnce(Self) -> Self) -> (built: Self)
        requires
            option is None ==> call_requires(modify, (self,)),
        ensures
            option is None ==> call_ensures(modify, (self,), built),
            option is Some ==> built == self,
    {
        self.map(
            |this: Self| -> (built: Self)
                requires
                    option is None ==> call_requires(modify, (this,)),
                ensures
                    option is None ==> call_ensures(modify, (this,), built),
                    option is Some ==> built == this
            {
                if option.is_some() {
                    this
                } else {
                    modify(this)
                }
            },
        )
    }
}

} // verus!
