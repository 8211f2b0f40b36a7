//! Temporary manual-override window.
//!
//! While a pause is active the daemon skips reconciliation, so a hand-run
//! `tailscale up`/`down` sticks instead of being re-asserted on the next
//! network change. The window is kept as a single file holding the Unix time
//! (in whole seconds) at which it ends. Reads fail open: a missing, expired or
//! unparseable file means "not paused", so a glitch can never suppress
//! protection.
//!
//! The file itself is read, written and removed by the caller; this module
//! decides what to write and what a read means.
use vstd::prelude::*;

use crate::text::{decimal_string, decimal_text, lemma_parse_decimal_text, parse_trimmed_u64, parsed_u64, trim};

verus! {

/// A point in time as the system clock gives it: whole seconds since the Unix
/// epoch (negative before it) and the nanoseconds past that second.
#[derive(Clone, Copy, PartialEq, Eq, Structural, Debug)]
pub struct Timestamp {
    pub secs: i64,
    pub nanos: u32,
}

/// A non-negative span of time: whole seconds and the nanoseconds past them.
#[derive(Clone, Copy, PartialEq, Eq, Structural, Debug)]
pub struct Remaining {
    pub secs: u64,
    pub nanos: u32,
}

/// What to do with the pause file.
#[derive(PartialEq, Eq, Debug)]
pub enum PauseUpdate {
    /// Remove the file: no pause.
    Clear,
    /// Write `contents`, the decimal text of `until_secs`, the Unix second at
    /// which the pause ends.
    Start { until_secs: u64, contents: String },
}

/// Why a pause could not be set.
#[derive(Clone, Copy, PartialEq, Eq, Structural, Debug)]
pub enum PauseError {
    /// The end of the window lies before the Unix epoch.
    DeadlineBeforeEpoch,
}

impl Timestamp {
    /// The instant in nanoseconds since the epoch.
    pub open spec fn total_nanos(self) -> int {
        self.secs * 1_000_000_000 + self.nanos
    }

    /// Nanoseconds within the second, as the clock keeps them.
    pub open spec fn valid(self) -> bool {
        self.nanos < 1_000_000_000
    }
}

impl Remaining {
    /// The span in nanoseconds.
    pub open spec fn total_nanos(self) -> int {
        self.secs * 1_000_000_000 + self.nanos
    }

    /// Whole seconds of the span (`Duration::as_secs`).
    pub fn as_secs(&self) -> (s: u64)
        ensures
            s == self.secs,
    {
        self.secs
    }

    /// Nanoseconds past the whole seconds (`Duration::subsec_nanos`).
    pub fn subsec_nanos(&self) -> (n: u32)
        ensures
            n == self.nanos,
    {
        self.nanos
    }
}

impl PauseError {
    /// The error's text.
    pub fn message(&self) -> (m: &'static str)
        ensures
            m@ == "second time provided was later than self"@,
    {
        "second time provided was later than self"
    }
}

/// The Unix second at which a pause of `minutes` started at `now` ends.
pub open spec fn pause_end_secs(now: Timestamp, minutes: u64) -> int {
    now.secs + minutes * 60
}

/// The clock can represent the end of the window: `minutes * 60` fits in 64
/// bits and the end second in the clock's signed 64 bits. Outside this, adding
/// the window to the clock overflows (and panics).
pub open spec fn pause_fits(now: Timestamp, minutes: u64) -> bool {
    minutes == 0 || (minutes * 60 <= u64::MAX && pause_end_secs(now, minutes) <= i64::MAX)
}

/// Starts a pause of `minutes` at `now`; `0` clears any pause.
///
/// For a positive length the window ends `minutes * 60` seconds after `now`,
/// and the file records that end in whole seconds since the epoch (the
/// fraction of `now` dropped).
pub fn set(now: Timestamp, minutes: u64) -> (r: Result<PauseUpdate, PauseError>)
    requires
        now.valid(),
        pause_fits(now, minutes),
    ensures
        minutes == 0 ==> r == Ok::<PauseUpdate, PauseError>(PauseUpdate::Clear),
        minutes > 0 && pause_end_secs(now, minutes) < 0 ==> r == Err::<PauseUpdate, PauseError>(
            PauseError::DeadlineBeforeEpoch,
        ),
        minutes > 0 && pause_end_secs(now, minutes) >= 0 ==> (r matches Ok(
            PauseUpdate::Start { until_secs, contents },
        ) && until_secs == pause_end_secs(now, minutes) && contents@ == decimal_text(
            until_secs as nat,
        )),
{
    if minutes == 0 {
        return Ok(PauseUpdate::Clear);
    }
    let window = (minutes as i128) * 60;
    let end = (now.secs as i128) + window;
    if end < 0 {
        return Err(PauseError::DeadlineBeforeEpoch);
    }
    let until_secs = end as u64;
    let contents = decimal_string(until_secs);
    Ok(PauseUpdate::Start { until_secs, contents })
}

/// The end of the window that a pause file records: its contents, trimmed, as
/// an unsigned decimal; `None` where they are not one.
pub fn read_deadline(contents: &str) -> (d: Option<u64>)
    ensures
        d == parsed_u64(trim(contents@)),
{
    parse_trimmed_u64(contents)
}

/// The clock can hold the recorded end (its seconds are signed 64-bit).
pub open spec fn deadline_fits(deadline: Option<u64>) -> bool {
    deadline matches Some(d) ==> d <= i64::MAX
}

/// What is left of the window at `now`: the span from `now` to the recorded
/// end, where the end is not before `now`; `None` (not paused) where there is
/// no recorded end, it has passed, or it is no time the clock can hold (reads
/// fail open).
pub open spec fn remaining_spec(deadline: Option<u64>, now: Timestamp) -> Option<int> {
    match deadline {
        Some(d) => if d <= i64::MAX && d * 1_000_000_000 >= now.total_nanos() {
            Some(d * 1_000_000_000 - now.total_nanos())
        } else {
            None
        },
        None => None,
    }
}

/// Time left in the pause window at `now`, or `None` when not paused.
pub fn remaining(deadline: Option<u64>, now: Timestamp) -> (r: Option<Remaining>)
    requires
        now.valid(),
    ensures
        r is Some <==> remaining_spec(deadline, now) is Some,
        r matches Some(left) ==> {
            &&& left.nanos < 1_000_000_000
            &&& left.total_nanos() == remaining_spec(deadline, now)->0
        },
{
    match deadline {
        None => None,
        Some(d) => {
            if d > (i64::MAX as u64) {
                return None;
            }
            let until = (d as i128) * 1_000_000_000;
            let at = (now.secs as i128) * 1_000_000_000 + (now.nanos as i128);
            if until < at {
                return None;
            }
            let diff = until - at;
            let secs = diff / 1_000_000_000;
            let nanos = diff % 1_000_000_000;
            assert(secs * 1_000_000_000 + nanos == diff);
            assert(secs <= u64::MAX);
            Some(Remaining { secs: secs as u64, nanos: nanos as u32 })
        },
    }
}

// ---------------------------------------------------------------------------
// Laws of the pause window
// ---------------------------------------------------------------------------

/// A pause of `minutes > 0` set at `now` records an end that reads back as
/// written, and at that same `now` the window is open with between
/// `minutes * 60 - 1` (exclusive) and `minutes * 60` (inclusive) seconds left.
pub proof fn law_set_then_remaining(now: Timestamp, minutes: u64, until_secs: u64, contents: Seq<char>)
    requires
        now.valid(),
        minutes > 0,
        pause_fits(now, minutes),
        pause_end_secs(now, minutes) >= 0,
        until_secs == pause_end_secs(now, minutes),
        contents == decimal_text(until_secs as nat),
    ensures
        parsed_u64(trim(contents)) == Some(until_secs),
        deadline_fits(Some(until_secs)),
        remaining_spec(Some(until_secs), now) is Some,
        (minutes * 60 - 1) * 1_000_000_000 < remaining_spec(Some(until_secs), now)->0 <= minutes
            * 60 * 1_000_000_000,
{
    lemma_parse_decimal_text(until_secs);
}

/// Once the recorded end has passed, the window reads as closed.
pub proof fn law_expired_window_is_not_paused(deadline: u64, later: Timestamp)
    requires
        later.valid(),
        later.total_nanos() > deadline * 1_000_000_000,
    ensures
        remaining_spec(Some(deadline), later) is None,
{
}

/// Without a readable pause file, or with one that does not hold a number,
/// nothing is paused: reads fail open.
pub proof fn law_reads_fail_open(contents: Seq<char>, now: Timestamp)
    requires
        parsed_u64(trim(contents)) is None,
    ensures
        remaining_spec(parsed_u64(trim(contents)), now) is None,
        remaining_spec(None, now) is None,
{
}

/// A recorded end that is no time the clock can hold (its second beyond the
/// clock's signed 64 bits) reads as not paused, like an unparseable one.
pub proof fn law_out_of_range_deadline_fails_open(deadline: u64, now: Timestamp)
    requires
        deadline > i64::MAX,
    ensures
        remaining_spec(Some(deadline), now) is None,
{
}

/// The window is open at every instant up to its recorded end, that end
/// included, with exactly the time to the end left; it is closed at every
/// instant after it.
pub proof fn law_window_open_until_its_end(deadline: u64, now: Timestamp)
    requires
        now.valid(),
        deadline <= i64::MAX,
    ensures
        now.secs * 1_000_000_000 + now.nanos <= deadline * 1_000_000_000 ==> remaining_spec(
            Some(deadline),
            now,
        ) == Some(deadline * 1_000_000_000 - (now.secs * 1_000_000_000 + now.nanos)),
        now.secs * 1_000_000_000 + now.nanos > deadline * 1_000_000_000 ==> remaining_spec(
            Some(deadline),
            now,
        ) is None,
{
}

} // verus!
