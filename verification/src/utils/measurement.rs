//! Timing what a function takes, where measurements are asked for.

use std::time::Instant;
use vstd::prelude::*;
use vstd::string::StringExecFns;

verus! {

/// A point in time, as the machine's clock tells it.
#[verifier::external_type_specification]
#[verifier::external_body]
pub struct ExInstant(std::time::Instant);

/// The text in which `Duration` shows, with `{:?}`, the given seconds and
/// nanoseconds.
pub uninterp spec fn duration_text(secs: u64, nanos: u32) -> Seq<char>;

/// `Instant::now`, of which nothing can be promised.
#[verifier::external_body]
fn now() -> (start: Instant) {
    Instant::now()
}

/// `Instant::elapsed`, as whole seconds and the nanoseconds beyond them, of which
/// there are always fewer than a second's worth.
#[verifier::external_body]
fn elapsed(start: &Instant) -> (taken: (u64, u32))
    ensures
        taken.1 < 1_000_000_000,
{
    let taken = start.elapsed();
    (taken.as_secs(), taken.subsec_nanos())
}

/// The `Debug` text of a `Duration`, which depends on nothing but its length.
#[verifier::external_body]
fn show_duration(secs: u64, nanos: u32) -> (shown: String)
    requires
        nanos < 1_000_000_000,
    ensures
        shown@ == duration_text(secs, nanos),
{
    format!("{:?}", std::time::Duration::new(secs, nanos))
}

/// Whether the setting asks for measurements.
pub open spec fn asks_to_measure(setting: Option<&str>) -> bool {
    setting matches Some(text) && (text@ == "1"@ || text@ == "true"@)
}

/// Whether measurements are asked for, from the value of the setting where it has
/// one.
pub fn measurements_enabled(setting: Option<&str>) -> (enabled: bool)
    ensures
        enabled == asks_to_measure(setting),
{
    match setting {
        Some(text) => {
            let text = text.to_owned();
            text == "1".to_owned() || text == "true".to_owned()
        },
        None => false,
    }
}

/// Whether measurements are enabled: as was settled before, or else as the setting
/// asks.
pub open spec fn settled(known: Option<bool>, setting: Option<&str>) -> bool {
    match known {
        Some(enabled) => enabled,
        None => asks_to_measure(setting),
    }
}

/// Settles whether measurements are enabled: what was settled before is kept, whatever
/// the setting has become.
pub fn settle(known: Option<bool>, setting: Option<&str>) -> (enabled: bool)
    ensures
        enabled == settled(known, setting),
{
    match known {
        Some(enabled) => enabled,
        None => measurements_enabled(setting),
    }
}

/// What is reported of something that took the given time.
pub open spec fn report(label: Seq<char>, secs: u64, nanos: u32) -> Seq<char> {
    label + ": "@ + duration_text(secs, nanos)
}

/// The line that reports how long the labelled work took.
pub fn report_line(label: &str, secs: u64, nanos: u32) -> (line: String)
    requires
        nanos < 1_000_000_000,
    ensures
        line@ == report(label@, secs, nanos),
{
    let mut line = label.to_owned();
    line.append(": ");
    line.append(show_duration(secs, nanos).as_str());
    line
}

/// Whether the clock can have told that so much time went by since `start`.
pub closed spec fn clocked(start: Instant, secs: u64, nanos: u32) -> bool {
    call_ensures(elapsed, (&start,), (secs, nanos))
}

/// What is left of work that has run: its result, and the point in time before it ran.
pub struct Timed<R> {
    start: Instant,
    result: R,
}

impl<R> Timed<R> {
    /// The point in time before the work ran.
    pub closed spec fn start(&self) -> Instant {
        self.start
    }

    /// The result of the work.
    pub closed spec fn result(&self) -> R {
        self.result
    }

    /// The time that went by until now since before the work ran, which has run.
    pub fn taken(&self) -> (taken: (u64, u32))
        ensures
            clocked(self.start(), taken.0, taken.1),
            taken.1 < 1_000_000_000,
    {
        elapsed(&self.start)
    }

    /// Hands over the result.
    pub fn into_result(self) -> (result: R)
        ensures
            result == self.result(),
    {
        self.result
    }
}

/// Runs the function, once there is a point in time to count from.
pub fn run_from<R, F: FnOnce() -> R>(start: Instant, f: F) -> (timed: Timed<R>)
    requires
        call_requires(f, ()),
    ensures
        timed.start() == start,
        call_ensures(f, (), timed.result()),
{
    let result = f();
    Timed { start, result }
}

/// Runs the function and, where measurements are enabled, reports how long it took. The
/// time counts from a point that was there for the run to be made from, and is read off
/// what the run left: it spans the whole run.
pub fn measure<R, F: FnOnce() -> R>(enabled: bool, label: &str, f: F) -> (measured: (
    R,
    Option<String>,
))
    requires
        call_requires(f, ()),
    ensures
        call_ensures(f, (), measured.0),
        measured.1 is Some <==> enabled,
        measured.1 matches Some(line) ==> exists|
            start: Instant,
            timed: Timed<R>,
            taken: (u64, u32),
        | #[trigger]
            call_ensures(run_from::<R, F>, (start, f), timed) && #[trigger] call_ensures(
                Timed::<R>::taken,
                (&timed,),
                taken,
            ) && clocked(start, taken.0, taken.1) && measured.0 == timed.result() && line@
                == report(label@, taken.0, taken.1),
{
    if enabled {
        let ghost work = f;
        let start = now();
        let timed = run_from(start, f);
        assert(call_ensures(run_from::<R, F>, (start, work), timed));
        let taken = timed.taken();
        assert(call_ensures(Timed::<R>::taken, (&timed,), taken));
        let line = report_line(label, taken.0, taken.1);
        (timed.into_result(), Some(line))
    } else {
        (f(), None)
    }
}

/// The first setting decides: measurements are enabled exactly where it asks for them,
/// and once that is settled no later setting changes it.
pub proof fn law_first_setting_decides(first: Option<&str>, later: Option<&str>)
    ensures
        settled(Some(settled(None, first)), later) == settled(None, first),
        settled(None, first) <==> asks_to_measure(first),
{
}

/// Exactly two texts ask for measurements: the digit one and the word true. No other text
/// does, and neither does a setting that has no text.
pub proof fn law_two_texts_ask_to_measure(setting: Option<&str>)
    ensures
        settled(None, setting) <==> setting is Some && (setting->0@ == seq!['1'] || setting->0@
            == seq!['t', 'r', 'u', 'e']),
        asks_to_measure(setting) == settled(None, setting),
        settled(Some(true), setting),
        !settled(Some(false), setting),
{
    reveal_strlit("1");
    reveal_strlit("true");
    assert("1"@ =~= seq!['1']);
    assert("true"@ =~= seq!['t', 'r', 'u', 'e']);
}

/// A report says the label, a colon, a blank, and the time that the clock told, and
/// nothing else.
pub proof fn law_report_says_label_and_time(label: Seq<char>, secs: u64, nanos: u32)
    ensures
        report(label, secs, nanos) == label + seq![':', ' '] + duration_text(secs, nanos),
{
    reveal_strlit(": ");
    assert(": "@ =~= seq![':', ' ']);
}

/// What a run leaves counts from the point in time that the run was made from, so what
/// the clock tells of it is the time since before the run.
pub proof fn law_time_counts_from_before_the_run<R, F: FnOnce() -> R>(
    start: Instant,
    f: F,
    timed: Timed<R>,
    taken: (u64, u32),
)
    requires
        call_ensures(run_from::<R, F>, (start, f), timed),
        call_ensures(Timed::<R>::taken, (&timed,), taken),
    ensures
        timed.start() == start,
        call_ensures(f, (), timed.result()),
        clocked(start, taken.0, taken.1),
{
}

/// A run leaves its result and the point in time before it, and nothing else: no time that
/// was read off the clock before the run was over.
pub proof fn law_a_run_leaves_no_more<R>(one: Timed<R>, other: Timed<R>)
    requires
        one.start() == other.start(),
        one.result() == other.result(),
    ensures
        one == other,
{
}

/// What the clock tells is the time that went by since the start, and nothing else.
proof fn law_the_clock_tells(start: Instant, secs: u64, nanos: u32)
    requires
        clocked(start, secs, nanos),
    ensures
        call_ensures(elapsed, (&start,), (secs, nanos)),
        nanos < 1_000_000_000,
{
}

} // verus!
