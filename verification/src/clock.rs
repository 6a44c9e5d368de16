//! Moments and spans of the system's clocks, the clock of a simulation, and
//! what to do after an attempt that may have to be made again.

use vstd::prelude::*;

verus! {

/// The number of nanoseconds in a second.
pub const NANOS_PER_SEC: i32 = 1_000_000_000;

/// The largest number of seconds, either way, that the arithmetic of this
/// module takes in a moment or a span: 2^60.
pub const MAX_SECONDS: i64 = 0x1000_0000_0000_0000;

/// A moment of a clock: `sec` whole seconds and `nsec` nanoseconds after the
/// clock's origin.
#[derive(Clone, Copy, Debug, PartialEq, Eq, Structural, Hash)]
pub struct Timespec {
    pub sec: i64,
    pub nsec: i32,
}

/// A span of time, which may be negative: `secs` whole seconds and `nanos`
/// nanoseconds.
#[derive(Clone, Copy, Debug, PartialEq, Eq, Structural, Hash)]
pub struct Duration {
    pub secs: i64,
    pub nanos: i32,
}

impl Timespec {
    /// The moment in nanoseconds after the origin.
    pub open spec fn nanos(self) -> int {
        self.sec * 1_000_000_000 + self.nsec
    }

    /// Whether the moment is written in the one way that it can be, and
    /// lies within what the arithmetic takes.
    pub open spec fn wf(self) -> bool {
        0 <= self.nsec < NANOS_PER_SEC && -MAX_SECONDS <= self.sec <= MAX_SECONDS
    }

    /// The moment `sec` seconds and `nsec` nanoseconds after the origin.
    pub fn new(sec: i64, nsec: i32) -> (t: Timespec)
        requires
            0 <= nsec < NANOS_PER_SEC,
        ensures
            t == (Timespec { sec, nsec }),
    {
        Timespec { sec, nsec }
    }

    /// The moment `d` after this one.
    pub fn plus(self, d: Duration) -> (t: Timespec)
        requires
            self.wf(),
            d.wf(),
        ensures
            t.nanos() == self.nanos() + d.nanos(),
            0 <= t.nsec < NANOS_PER_SEC,
    {
        let mut sec = self.sec + d.secs;
        let mut nsec = self.nsec + d.nanos;
        if nsec >= NANOS_PER_SEC {
            nsec = nsec - NANOS_PER_SEC;
            sec = sec + 1;
        }
        Timespec { sec, nsec }
    }

    /// The span from `other` to this moment.
    pub fn since(self, other: Timespec) -> (d: Duration)
        requires
            0 <= self.nsec < NANOS_PER_SEC,
            -2 * MAX_SECONDS - 1 <= self.sec <= 2 * MAX_SECONDS + 1,
            other.wf(),
        ensures
            d.nanos() == self.nanos() - other.nanos(),
            0 <= d.nanos < NANOS_PER_SEC,
    {
        let mut secs = self.sec - other.sec;
        let mut nanos = self.nsec - other.nsec;
        if nanos < 0 {
            nanos = nanos + NANOS_PER_SEC;
            secs = secs - 1;
        }
        Duration { secs, nanos }
    }

    /// Whether this moment lies after `other`.
    pub fn is_after(self, other: Timespec) -> (r: bool)
        requires
            0 <= self.nsec < NANOS_PER_SEC,
            0 <= other.nsec < NANOS_PER_SEC,
        ensures
            r == (self.nanos() > other.nanos()),
    {
        self.sec > other.sec || (self.sec == other.sec && self.nsec > other.nsec)
    }
}

impl Duration {
    /// The span in nanoseconds.
    pub open spec fn nanos(self) -> int {
        self.secs * 1_000_000_000 + self.nanos
    }

    /// Whether the span is written in the one way that it can be, and lies
    /// within what the arithmetic takes.
    pub open spec fn wf(self) -> bool {
        0 <= self.nanos < NANOS_PER_SEC && -MAX_SECONDS <= self.secs <= MAX_SECONDS
    }

    /// The span of no time.
    pub fn zero() -> (d: Duration)
        ensures
            d.nanos() == 0,
            d.wf(),
    {
        Duration { secs: 0, nanos: 0 }
    }

    /// The span of `seconds` seconds.
    pub fn seconds(seconds: i64) -> (d: Duration)
        ensures
            d == (Duration { secs: seconds, nanos: 0 }),
            d.nanos() == seconds * 1_000_000_000,
    {
        Duration { secs: seconds, nanos: 0 }
    }

    /// The span of `minutes` minutes.
    pub fn minutes(minutes: i64) -> (d: Duration)
        requires
            -MAX_SECONDS <= minutes * 60 <= MAX_SECONDS,
        ensures
            d.nanos() == minutes * 60_000_000_000,
            d.wf(),
    {
        Duration { secs: minutes * 60, nanos: 0 }
    }

    /// The span of a stretch of a recording: `ticks` ticks of the 90 kHz
    /// clock, rounded down to the nanosecond.
    pub fn from_90k(ticks: i64) -> (d: Duration)
        requires
            0 <= ticks,
        ensures
            d.nanos() == ticks * 100_000 / 9,
            d.wf(),
            d.secs == ticks / 90_000,
    {
        let secs = ticks / 90_000;
        let rest = ticks % 90_000;
        let nanos = (rest * 100_000 / 9) as i32;
        assert(secs * 1_000_000_000 + rest * 100_000 / 9 == ticks * 100_000 / 9) by (nonlinear_arith)
            requires
                ticks == secs * 90_000 + rest,
                0 <= rest < 90_000,
        ;
        Duration { secs, nanos }
    }

    /// Whether the span is negative.
    pub fn is_negative(self) -> (r: bool)
        requires
            0 <= self.nanos < NANOS_PER_SEC,
        ensures
            r == (self.nanos() < 0),
    {
        self.secs < 0
    }

    /// The sum of this span and `other`.
    pub fn plus(self, other: Duration) -> (d: Duration)
        requires
            self.wf(),
            other.wf(),
        ensures
            d.nanos() == self.nanos() + other.nanos(),
            0 <= d.nanos < NANOS_PER_SEC,
    {
        let mut secs = self.secs + other.secs;
        let mut nanos = self.nanos + other.nanos;
        if nanos >= NANOS_PER_SEC {
            nanos = nanos - NANOS_PER_SEC;
            secs = secs + 1;
        }
        Duration { secs, nanos }
    }

    /// The difference of this span and `other`.
    pub fn minus(self, other: Duration) -> (d: Duration)
        requires
            self.wf(),
            other.wf(),
        ensures
            d.nanos() == self.nanos() - other.nanos(),
            0 <= d.nanos < NANOS_PER_SEC,
    {
        let mut secs = self.secs - other.secs;
        let mut nanos = self.nanos - other.nanos;
        if nanos < 0 {
            nanos = nanos + NANOS_PER_SEC;
            secs = secs - 1;
        }
        Duration { secs, nanos }
    }
}

/// What to do after an attempt at something that must succeed in the end.
#[derive(Debug)]
pub enum Retry<T> {
    /// The attempt succeeded, with this result.
    Done(T),
    /// The attempt failed: sleep for this long, then make it again.
    SleepThenRetry(Duration),
}

/// Decides what follows an attempt: a success ends the matter; after a
/// failure, whatever it is, comes a sleep of exactly one second and another
/// attempt.
pub fn retry_step<T, E>(attempt: Result<T, E>) -> (r: Retry<T>)
    ensures
        match attempt {
            Ok(t) => r == Retry::Done(t),
            Err(_) => r == Retry::<T>::SleepThenRetry(Duration { secs: 1, nanos: 0 }),
        },
{
    match attempt {
        Ok(t) => Retry::Done(t),
        Err(_) => Retry::SleepThenRetry(Duration::seconds(1)),
    }
}

/// The clocks of a simulation: time passes only when the simulation sleeps,
/// or waits for a message that is not there.
#[derive(Clone, Copy, Debug)]
pub struct SimulatedClocks {
    boot: Timespec,
    uptime: Duration,
}

impl SimulatedClocks {
    /// The time of day at which the simulated system was started.
    pub closed spec fn boot(self) -> Timespec {
        self.boot
    }

    /// The time for which the simulated system has run.
    pub closed spec fn uptime(self) -> Duration {
        self.uptime
    }

    /// Whether the clocks lie within what the arithmetic takes.
    pub open spec fn wf(self) -> bool {
        self.boot().wf() && self.uptime().wf() && self.uptime().secs >= 0
    }

    /// The clocks of a system that has just been started, at `boot` by the
    /// time of day.
    pub fn new(boot: Timespec) -> (c: SimulatedClocks)
        requires
            boot.wf(),
        ensures
            c.boot() == boot,
            c.uptime() == (Duration { secs: 0, nanos: 0 }),
            c.wf(),
    {
        SimulatedClocks { boot, uptime: Duration::seconds(0) }
    }

    /// The time of day: the uptime after the time of the start.
    pub fn realtime(&self) -> (t: Timespec)
        requires
            self.wf(),
        ensures
            t.nanos() == self.boot().nanos() + self.uptime().nanos(),
            0 <= t.nsec < NANOS_PER_SEC,
    {
        self.boot.plus(self.uptime)
    }

    /// The monotonic clock: the uptime.
    pub fn monotonic(&self) -> (t: Timespec)
        requires
            self.wf(),
        ensures
            t == (Timespec { sec: self.uptime().secs, nsec: self.uptime().nanos }),
            t.nanos() == self.uptime().nanos(),
    {
        Timespec::new(0, 0).plus(self.uptime)
    }

    /// Lets `how_long` pass, without any sleep in fact.
    pub fn sleep(&mut self, how_long: Duration)
        requires
            old(self).wf(),
            how_long.wf(),
            how_long.secs >= 0,
            old(self).uptime().secs + how_long.secs < MAX_SECONDS,
        ensures
            final(self).boot() == old(self).boot(),
            final(self).uptime().nanos() == old(self).uptime().nanos() + how_long.nanos(),
            final(self).wf(),
    {
        self.uptime = self.uptime.plus(how_long);
    }

    /// Takes the outcome of a look for a message that did not wait: where
    /// there was none, the whole `timeout` passes. The outcome is handed
    /// back as it came.
    pub fn recv_timeout<T, E>(&mut self, received: Result<T, E>, timeout: Duration) -> (r: Result<
        T,
        E,
    >)
        requires
            old(self).wf(),
            timeout.wf(),
            timeout.secs >= 0,
            old(self).uptime().secs + timeout.secs < MAX_SECONDS,
        ensures
            r == received,
            final(self).boot() == old(self).boot(),
            final(self).uptime().nanos() == old(self).uptime().nanos() + (if received is Err {
                timeout.nanos()
            } else {
                0
            }),
            final(self).wf(),
    {
        if received.is_err() {
            self.sleep(timeout);
        }
        received
    }
}

} // verus!
