use std::time::{Duration, Instant, SystemTime, UNIX_EPOCH};
use vstd::prelude::*;
use crate::text::{decimal, digit_char, push_two_digits, two_digits};

verus! {

/// Length of every focus session, in seconds (25 minutes).
pub const FOCUS_SECS: u64 = 1500;

#[verifier::external_type_specification]
#[verifier::external_body]
pub struct ExInstant(Instant);

#[verifier::external_type_specification]
#[verifier::external_body]
pub struct ExSystemTime(SystemTime);

/// Relies on `Instant::now`: a reading of the monotonic clock.
#[verifier::external_body]
fn monotonic_now() -> Instant {
    Instant::now()
}

/// Relies on `Instant::elapsed`: the whole seconds that passed since `reference`.
#[verifier::external_body]
fn whole_secs_since(reference: &Instant) -> u64 {
    reference.elapsed().as_secs()
}

/// Relies on `Instant::checked_sub`: the reading `secs` seconds before `reference`,
/// where the platform can represent it.
#[verifier::external_body]
fn reading_before(reference: &Instant, secs: u64) -> Option<Instant> {
    reference.checked_sub(Duration::from_secs(secs))
}

/// Relies on `SystemTime::now`: a reading of the wall clock.
#[verifier::external_body]
fn wall_clock_now() -> SystemTime {
    SystemTime::now()
}

/// Relies on `SystemTime::duration_since`: whole seconds from the Unix epoch to `t`,
/// or `None` where `t` lies before the epoch.
#[verifier::external_body]
fn secs_since_epoch(t: &SystemTime) -> Option<u64> {
    match t.duration_since(UNIX_EPOCH) {
        Ok(d) => Some(d.as_secs()),
        Err(_) => None,
    }
}

/// The wall clock now, in whole seconds since the Unix epoch; a clock set before the
/// epoch reads as the epoch itself.
pub fn wall_clock_secs() -> u64 {
    secs_since_epoch(&wall_clock_now()).unwrap_or(0)
}

/// Number of seconds left on a countdown of `duration` seconds after `elapsed` seconds.
pub open spec fn countdown(duration: nat, elapsed: nat) -> nat {
    if elapsed >= duration {
        0
    } else {
        (duration - elapsed) as nat
    }
}

/// `a - b`, or zero where `b` exceeds `a`.
pub open spec fn monus(a: nat, b: nat) -> nat {
    if b >= a {
        0
    } else {
        (a - b) as nat
    }
}

/// `secs` shown as minutes and seconds, `MM:SS`.
pub open spec fn clock_text(secs: nat) -> Seq<char> {
    two_digits(secs / 60) + seq![':'] + two_digits(secs % 60)
}

/// What a timer holds, as plain values.
pub ghost struct TimerView {
    /// Length of the countdown, in seconds.
    pub duration: nat,
    /// Wall-clock start, in seconds since the Unix epoch; `None` until started.
    pub start_timestamp: Option<u64>,
    /// Whether a monotonic reference of this process is held.
    pub has_reference: bool,
    /// How many seconds before the moment it was taken the monotonic reference lies:
    /// zero for one taken at the start, the wall-clock time already spent for one
    /// restored after a load.
    pub reference_lag: nat,
}

impl TimerView {
    /// Seconds left, given the seconds elapsed on the monotonic clock since the reference
    /// and the wall clock's reading now.
    pub open spec fn remaining_at(self, mono_elapsed: nat, wall_now: nat) -> nat {
        match self.start_timestamp {
            None => self.duration,
            Some(ts) => if self.has_reference {
                countdown(self.duration, mono_elapsed)
            } else {
                countdown(self.duration, monus(wall_now, ts as nat))
            },
        }
    }

    pub open spec fn is_started(self) -> bool {
        self.start_timestamp is Some
    }
}

/// A countdown of fixed length that remembers when it was started, both on the
/// wall clock (which survives a restart) and on the monotonic clock (which is exact
/// within one process).
/// Every timer runs for the standard focus length.
#[derive(Clone, Copy)]
pub struct Timer {
    duration: u64,
    start_timestamp: Option<u64>,
    start_instant: Option<Instant>,
    reference_lag: Ghost<nat>,
}

impl View for Timer {
    type V = TimerView;

    closed spec fn view(&self) -> TimerView {
        TimerView {
            duration: self.duration as nat,
            start_timestamp: self.start_timestamp,
            has_reference: self.start_instant is Some,
            reference_lag: self.reference_lag@,
        }
    }
}

/// A timer as it comes: the standard length, not started, no reference.
pub open spec fn unstarted_view() -> TimerView {
    TimerView { duration: FOCUS_SECS as nat, start_timestamp: None, has_reference: false, reference_lag: 0 }
}

/// `new` is `old` after a restore at the wall-clock reading `wall_now`: a started
/// timer without a reference gets one set back by the wall-clock time spent since
/// the start, where the platform can represent that instant; any other timer stays
/// as it was.
pub open spec fn restored_view(old: TimerView, new: TimerView, wall_now: nat) -> bool {
    if old.is_started() && !old.has_reference {
        &&& new.duration == old.duration
        &&& new.start_timestamp == old.start_timestamp
        &&& new.has_reference ==> new.reference_lag == monus(
            wall_now,
            old.start_timestamp->0 as nat,
        )
        &&& !new.has_reference ==> new == old
    } else {
        new == old
    }
}

impl Default for Timer {
    /// A timer of the standard focus length that has not been started.
    fn default() -> (t: Timer)
        ensures
            t@ == unstarted_view(),
    {
        Timer::new()
    }
}

impl Timer {
    /// The length of every timer.
    #[verifier::type_invariant]
    spec fn has_focus_length(&self) -> bool {
        self.duration == FOCUS_SECS
    }

    /// A timer of the standard focus length that has not been started.
    pub fn new() -> (t: Timer)
        ensures
            t@ == unstarted_view(),
    {
        Timer { duration: FOCUS_SECS, start_timestamp: None, start_instant: None, reference_lag: Ghost(0) }
    }

    /// A timer as it was saved: its wall-clock start, with no monotonic reference yet
    /// (see `restore_instant`). Its length is the standard one.
    pub fn from_saved(start_timestamp: Option<u64>) -> (t: Timer)
        ensures
            t@ == (TimerView { start_timestamp, ..unstarted_view() }),
    {
        Timer { duration: FOCUS_SECS, start_timestamp, start_instant: None, reference_lag: Ghost(0) }
    }

    /// Length of the countdown, in seconds.
    pub fn duration(&self) -> (r: u64)
        ensures
            r as nat == self@.duration,
            r == FOCUS_SECS,
    {
        proof {
            use_type_invariant(self);
        }
        self.duration
    }

    /// Wall-clock start, in seconds since the Unix epoch.
    pub fn start_timestamp(&self) -> (r: Option<u64>)
        ensures
            r == self@.start_timestamp,
    {
        self.start_timestamp
    }

    /// Starts (or restarts) the countdown now. A wall clock set before the Unix epoch
    /// is read as the epoch itself.
    pub fn start(&mut self)
        ensures
            final(self)@.duration == old(self)@.duration,
            final(self)@.start_timestamp is Some,
            final(self)@.has_reference,
            final(self)@.reference_lag == 0,
    {
        proof {
            use_type_invariant(&*self);
        }
        self.start_timestamp = Some(wall_clock_secs());
        self.start_instant = Some(monotonic_now());
        self.reference_lag = Ghost(0);
    }

    /// Seconds left, given the seconds elapsed on the monotonic clock since this
    /// timer's reference and the wall clock's reading now (seconds since the epoch).
    /// The monotonic reading is used where the timer holds a reference, the wall
    /// clock otherwise; the result never goes below zero.
    pub fn remaining_at(&self, mono_elapsed: u64, wall_now: u64) -> (r: u64)
        ensures
            r as nat == self@.remaining_at(mono_elapsed as nat, wall_now as nat),
    {
        match self.start_timestamp {
            None => self.duration,
            Some(ts) => {
                let elapsed = if self.start_instant.is_some() {
                    mono_elapsed
                } else if wall_now >= ts {
                    wall_now - ts
                } else {
                    0
                };
                if elapsed >= self.duration {
                    0
                } else {
                    self.duration - elapsed
                }
            },
        }
    }

    /// Seconds left on the countdown now: the full length before the start, never
    /// below zero.
    pub fn remaining_seconds(&self) -> (r: u64)
        ensures
            exists|m: nat, w: nat| r as nat == #[trigger] self@.remaining_at(m, w),
            r as nat <= self@.duration,
            r <= FOCUS_SECS,
            !self@.is_started() ==> r as nat == self@.duration,
    {
        proof {
            use_type_invariant(self);
        }
        let mut mono_elapsed: u64 = 0;
        let mut wall_now: u64 = 0;
        if self.start_timestamp.is_some() {
            match &self.start_instant {
                Some(i) => {
                    mono_elapsed = whole_secs_since(i);
                },
                None => {
                    wall_now = wall_clock_secs();
                },
            }
        }
        let r = self.remaining_at(mono_elapsed, wall_now);
        assert(r as nat == self@.remaining_at(mono_elapsed as nat, wall_now as nat));
        r
    }

    /// Whether the countdown has run out.
    pub fn is_finished(&self) -> (r: bool)
        ensures
            !self@.is_started() ==> r == (self@.duration == 0),
            r ==> self@.is_started() || self@.duration == 0,
    {
        self.remaining_seconds() == 0
    }

    /// `secs` as `MM:SS`: minutes and seconds, each with at least two digits.
    pub fn format_clock(secs: u64) -> (r: String)
        ensures
            r@ == clock_text(secs as nat),
    {
        let mut s = String::new();
        push_two_digits(&mut s, secs / 60);
        s.push(':');
        push_two_digits(&mut s, secs % 60);
        s
    }

    /// The time left now, as `MM:SS`.
    pub fn output(&self) -> (r: String)
        ensures
            exists|secs: nat| secs <= FOCUS_SECS && r@ == #[trigger] clock_text(secs),
            !self@.is_started() ==> r@ == clock_text(FOCUS_SECS as nat),
    {
        proof {
            use_type_invariant(self);
        }
        let secs = self.remaining_seconds();
        Timer::format_clock(secs)
    }

    /// The wall-clock seconds spent since the start at the reading `wall_now`, zero
    /// where the wall clock lies behind the start or the timer has not been started.
    pub fn seconds_spent(&self, wall_now: u64) -> (r: u64)
        ensures
            r as nat == match self@.start_timestamp {
                Some(ts) => monus(wall_now as nat, ts as nat),
                None => 0,
            },
    {
        match self.start_timestamp {
            Some(ts) => if wall_now >= ts {
                wall_now - ts
            } else {
                0
            },
            None => 0,
        }
    }

    /// After loading a saved timer, which carries only its wall-clock start, sets the
    /// monotonic reference to the instant that lies as many seconds back as the wall
    /// clock, read as `wall_now`, says have passed since the start. Does nothing to a
    /// timer that has not been started or already holds a reference.
    pub fn restore_instant_at(&mut self, wall_now: u64)
        ensures
            restored_view(old(self)@, final(self)@, wall_now as nat),
    {
        proof {
            use_type_invariant(&*self);
        }
        if self.start_instant.is_none() && self.start_timestamp.is_some() {
            let gap = self.seconds_spent(wall_now);
            let now = monotonic_now();
            let back = reading_before(&now, gap);
            if back.is_some() {
                self.start_instant = back;
                self.reference_lag = Ghost(gap as nat);
            }
        }
    }

    /// `restore_instant_at` with the wall clock read now.
    pub fn restore_instant(&mut self)
        ensures
            exists|w: nat| restored_view(old(self)@, final(self)@, w),
    {
        if self.start_instant.is_none() && self.start_timestamp.is_some() {
            let wall_now = wall_clock_secs();
            self.restore_instant_at(wall_now);
        } else {
            assert(restored_view(old(self)@, self@, 0));
        }
    }
}

/// The round trip of a running timer through storage. It is saved at the wall-clock
/// reading `wall_at_save`, when the monotonic reading agreed with the wall clock;
/// reloaded with its wall-clock start only; restored at `wall_at_restore`; and read
/// `since_restore` seconds later, on the restored reference where it got one and on
/// the wall clock otherwise. What is left then is never above what was left at the
/// save, and below it by at most the wall-clock time from the save to the reading.
pub proof fn lemma_round_trip_within_gap(
    t: TimerView,
    restored: TimerView,
    mono_at_save: nat,
    wall_at_save: nat,
    wall_at_restore: nat,
    since_restore: nat,
)
    requires
        t.is_started(),
        t.has_reference,
        mono_at_save == monus(wall_at_save, t.start_timestamp->0 as nat),
        wall_at_save <= wall_at_restore,
        restored_view(
            TimerView { has_reference: false, reference_lag: 0, ..t },
            restored,
            wall_at_restore,
        ),
    ensures
        ({
            let before = t.remaining_at(mono_at_save, wall_at_save);
            let after = restored.remaining_at(
                restored.reference_lag + since_restore,
                wall_at_restore + since_restore,
            );
            &&& after <= before
            &&& before - after <= wall_at_restore + since_restore - wall_at_save
        }),
{
}

/// Two digits for any number below 100.
pub proof fn lemma_two_digits(n: nat)
    requires
        n < 100,
    ensures
        two_digits(n) == seq![digit_char(n / 10), digit_char(n % 10)],
{
    if n >= 10 {
        reveal_with_fuel(decimal, 2);
        assert(decimal(n / 10) == seq![digit_char(n / 10)]);
    } else {
        assert(digit_char(0) == '0');
    }
}

/// For any time left below 100 minutes, so for any in [0, 1500], the clock text is
/// two digits of minutes, a colon and two digits of seconds, zero-padded.
pub proof fn lemma_clock_text_shape(secs: nat)
    requires
        secs < 6000,
    ensures
        clock_text(secs) == seq![
            digit_char(secs / 60 / 10),
            digit_char(secs / 60 % 10),
            ':',
            digit_char(secs % 60 / 10),
            digit_char(secs % 60 % 10),
        ],
{
    lemma_two_digits(secs / 60);
    lemma_two_digits(secs % 60);
    assert(clock_text(secs) =~= seq![
        digit_char(secs / 60 / 10),
        digit_char(secs / 60 % 10),
        ':',
        digit_char(secs % 60 / 10),
        digit_char(secs % 60 % 10),
    ]);
}

/// The value of an ASCII digit.
pub open spec fn digit_value(c: char) -> int {
    c as int - '0' as int
}

/// The clock text of any time a timer can show, so of any up to its full length,
/// is five characters: two ASCII digits, a colon and two ASCII digits. They read
/// back as minutes and seconds, with fewer than 60 seconds, to the time shown.
pub proof fn lemma_clock_text_reads_back(secs: nat)
    requires
        secs <= FOCUS_SECS,
    ensures
        ({
            let t = clock_text(secs);
            &&& t.len() == 5
            &&& t[2] == ':'
            &&& forall|k: int| 0 <= k < 5 && k != 2 ==> '0' <= #[trigger] t[k] && t[k] <= '9'
            &&& digit_value(t[3]) * 10 + digit_value(t[4]) < 60
            &&& (digit_value(t[0]) * 10 + digit_value(t[1])) * 60 + digit_value(t[3]) * 10
                + digit_value(t[4]) == secs
        }),
{
    lemma_clock_text_shape(secs);
    let m = secs / 60;
    let s = secs % 60;
    assert forall|d: nat| d < 10 implies digit_value(#[trigger] digit_char(d)) == d && '0'
        <= digit_char(d) && digit_char(d) <= '9' by {}
    assert(digit_value(digit_char(m / 10)) == m / 10);
    assert(digit_value(digit_char(m % 10)) == m % 10);
    assert(digit_value(digit_char(s / 10)) == s / 10);
    assert(digit_value(digit_char(s % 10)) == s % 10);
    assert((m / 10) * 10 + m % 10 == m);
    assert((s / 10) * 10 + s % 10 == s);
    assert(m * 60 + s == secs);
}

} // verus!
