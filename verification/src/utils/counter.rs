//! Counters that step by one.

use core::ops::Add;
use core::sync::atomic::AtomicUsize;
use vstd::prelude::*;
use vstd::std_specs::convert::FromSpec;
use vstd::std_specs::ops::AddSpec;

verus! {

/// Adds one to `value` and returns what it was before. For a type whose conversion
/// and addition are specified, as the integers' are, the new value is their sum.
pub fn post_inc<T: From<u8> + Add<T, Output = T> + Copy>(value: &mut T) -> (prev: T)
    requires
        forall|one: T|
            #[trigger] call_ensures(T::from, (1u8,), one) ==> call_requires(
                T::add,
                (*old(value), one),
            ),
    ensures
        prev == *old(value),
        exists|one: T| #[trigger]
            call_ensures(T::from, (1u8,), one) && call_ensures(
                T::add,
                (*old(value), one),
                *final(value),
            ),
        <T as FromSpec<u8>>::obeys_from_spec() && <T as AddSpec<T>>::obeys_add_spec()
            ==> *final(value) == old(value).add_spec(<T as FromSpec<u8>>::from_spec(1u8)),
{
    let prev = *value;
    let one = T::from(1u8);
    *value = prev + one;
    prev
}

/// What a counter that stands at `count` becomes when it is incremented unless it
/// is zero. Like every unchecked counter it wraps around at its limit.
pub open spec fn incremented(count: usize) -> usize {
    if count == 0 || count == usize::MAX {
        0
    } else {
        (count + 1) as usize
    }
}

/// The value to store in place of `count`, or nothing where the counter is zero
/// and stays so.
pub fn next_count(count: usize) -> (next: Option<usize>)
    ensures
        next == (if count == 0 {
            None::<usize>
        } else {
            Some(incremented(count))
        }),
{
    if count == 0 {
        None
    } else {
        Some(count.wrapping_add(1))
    }
}

/// What a counter stands at after an attempt to increment it that found so much: `Ok`
/// with the count that was replaced, or `Err` with the count that was left alone.
pub open spec fn counted(attempt: Result<usize, usize>) -> usize {
    match attempt {
        Ok(replaced) => incremented(replaced),
        Err(_) => 0,
    }
}

/// The count after an attempt to increment, from what the attempt found: `Ok` with
/// the count that was replaced, or `Err` with the count that was left alone.
pub fn count_after(attempt: Result<usize, usize>) -> (count: usize)
    ensures
        count == counted(attempt),
{
    match attempt {
        Ok(replaced) => match next_count(replaced) {
            Some(next) => next,
            None => 0,
        },
        Err(_) => 0,
    }
}

/// Whether an attempt that meets the counter at `held` comes out so: a count other than
/// zero is replaced, zero is left alone.
pub open spec fn finds(held: usize, attempt: Result<usize, usize>) -> bool {
    attempt == (if held == 0 {
        Err::<usize, usize>(held)
    } else {
        Ok(held)
    })
}

/// `AtomicUsize::fetch_update` with [`next_count`]: it loads the counter and stores
/// what the function makes of the value, and starts over while other threads get
/// in between. It returns `Ok` with the value it replaced where the function gave
/// one, else `Err` with the value that was left. What the counter holds afterwards
/// is not said: other threads may write to it at any time. The handle on the counter is
/// used up: who has no other cannot update the counter a second time.
#[verifier::external_body]
fn update_count<'a, C: Into<&'a AtomicUsize>>(counter: C) -> (attempt: Result<usize, usize>)
    ensures
        exists|held: usize| #[trigger] finds(held, attempt),
{
    counter.into().fetch_update(
        core::sync::atomic::Ordering::SeqCst,
        core::sync::atomic::Ordering::SeqCst,
        |count: usize| next_count(count),
    )
}

/// Whether `attempt` can come of an attempt to update the counter that the handle is on.
pub closed spec fn attempted<'a, C: Into<&'a AtomicUsize>>(
    counter: C,
    attempt: Result<usize, usize>,
) -> bool {
    call_ensures(update_count::<'a, C>, (counter,), attempt)
}

/// Increments the counter if it is not zero, and returns its new value: zero where an
/// attempt to update the counter found it at zero, else the increment of the count that
/// the attempt replaced. The counter is given as a handle that nothing is known of but
/// that it leads to the counter and is used up by that. So the attempt that the result
/// tells of is the only one that is made.
pub fn atomic_incr_if_not_zero<'a, C: Into<&'a AtomicUsize>>(counter: C) -> (count: usize)
    ensures
        exists|attempt: Result<usize, usize>, held: usize| #[trigger]
            attempted(counter, attempt) && #[trigger] finds(held, attempt) && count == counted(
                attempt,
            ) && count == incremented(held),
        count != 1,
{
    let ghost handle = counter;
    let attempt = update_count(counter);
    assert(attempted(handle, attempt));
    count_after(attempt)
}

/// What a counter that stood at `count` stands at after the attempts.
pub open spec fn left_by(count: usize, attempts: Seq<Result<usize, usize>>) -> usize {
    if attempts.len() == 0 {
        count
    } else {
        counted(attempts.last())
    }
}

/// Whether the attempts were made on one counter, which stood at `count` before the
/// first, one after the other and with no other writes: each meets what the one before
/// it left. Updates of an atomic counter always come in such an order, from whatever
/// threads they are made.
pub open spec fn in_turn(count: usize, attempts: Seq<Result<usize, usize>>) -> bool
    decreases attempts.len(),
{
    attempts.len() > 0 ==> in_turn(count, attempts.drop_last()) && finds(
        left_by(count, attempts.drop_last()),
        attempts.last(),
    )
}

/// A counter at zero stays there, and no other counter comes to stand at one.
pub proof fn law_zero_stays(count: usize, attempts: Seq<Result<usize, usize>>)
    requires
        in_turn(0, attempts),
    ensures
        forall|nth: int| 0 <= nth < attempts.len() ==> counted(#[trigger] attempts[nth]) == 0,
        left_by(0, attempts) == 0,
        incremented(count) != 1,
    decreases attempts.len(),
{
    if attempts.len() > 0 {
        let before = attempts.drop_last();
        law_zero_stays(count, before);
        assert forall|nth: int| 0 <= nth < attempts.len() implies counted(
            #[trigger] attempts[nth],
        ) == 0 by {
            if nth < before.len() {
                assert(before[nth] == attempts[nth]);
            }
        }
    }
}

/// No increment of a counter above zero is lost or made twice: as long as the counter
/// has room for all of them, the attempts count up from it one by one, and together they
/// add as many as there are.
pub proof fn law_increments_add_up(count: usize, attempts: Seq<Result<usize, usize>>)
    requires
        0 < count,
        count + attempts.len() <= usize::MAX,
        in_turn(count, attempts),
    ensures
        forall|nth: int|
            0 <= nth < attempts.len() ==> counted(#[trigger] attempts[nth]) == count + nth + 1,
        left_by(count, attempts) == count + attempts.len(),
    decreases attempts.len(),
{
    if attempts.len() > 0 {
        let before = attempts.drop_last();
        law_increments_add_up(count, before);
        assert forall|nth: int| 0 <= nth < attempts.len() implies counted(
            #[trigger] attempts[nth],
        ) == count + nth + 1 by {
            if nth < before.len() {
                assert(before[nth] == attempts[nth]);
            }
        }
    }
}

/// One attempt is one step: a counter that it meets above zero it takes to the next
/// count, around the limit to zero, and one at zero it leaves there.
pub proof fn law_one_attempt_is_one_step(held: usize, attempt: Result<usize, usize>)
    requires
        finds(held, attempt),
    ensures
        held == 0 ==> counted(attempt) == 0,
        0 < held < usize::MAX ==> counted(attempt) == held + 1,
        held == usize::MAX ==> counted(attempt) == 0,
        attempt == (if held > 0 {
            Ok::<usize, usize>(held)
        } else {
            Err(held)
        }),
        incremented(held) == counted(attempt),
{
}

/// An attempt is what one update of the counter, through the one handle on it, came to.
proof fn law_an_attempt_is_an_update<'a, C: Into<&'a AtomicUsize>>(
    counter: C,
    attempt: Result<usize, usize>,
)
    requires
        attempted(counter, attempt),
    ensures
        call_ensures(update_count::<'a, C>, (counter,), attempt),
        exists|held: usize| #[trigger] finds(held, attempt),
{
}

} // verus!
