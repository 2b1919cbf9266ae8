//! Host clocks: wall-clock microseconds for latency probes, and a monotonic millisecond
//! clock for rolling measurements.
use std::time::{Duration, Instant, SystemTime};
use vstd::prelude::*;

verus! {

#[verifier::external_type_specification]
#[verifier::external_body]
pub struct ExSystemTime(SystemTime);

#[verifier::external_type_specification]
#[verifier::external_body]
pub struct ExInstant(Instant);

/// `SystemTime::now()`; nothing is promised of the reading.
#[verifier::external_body]
fn system_now() -> SystemTime {
    SystemTime::now()
}

/// `t.duration_since(UNIX_EPOCH)`, `None` when `t` lies before the epoch.
#[verifier::external_body]
fn since_unix_epoch(t: &SystemTime) -> Option<Duration> {
    t.duration_since(std::time::UNIX_EPOCH).ok()
}

/// `Duration::as_micros`.
#[verifier::external_body]
fn duration_micros(d: &Duration) -> u128 {
    d.as_micros()
}

/// `Duration::as_secs`.
#[verifier::external_body]
fn duration_secs(d: &Duration) -> u64 {
    d.as_secs()
}

/// `Instant::now()`; nothing is promised of the reading.
#[verifier::external_body]
pub(crate) fn instant_now() -> Instant {
    Instant::now()
}

/// `origin.elapsed()`; nothing is promised of the reading.
#[verifier::external_body]
fn elapsed_since(origin: &Instant) -> Duration {
    origin.elapsed()
}

/// `Duration::as_millis`.
#[verifier::external_body]
fn duration_millis(d: &Duration) -> u128 {
    d.as_millis()
}

/// Whole milliseconds elapsed since `origin`, cut to 64 bits.
pub(crate) fn millis_since(origin: &Instant) -> u64 {
    let d = elapsed_since(origin);
    let ms = duration_millis(&d);
    ms as u64
}

/// Microseconds since the UNIX epoch by the wall clock, `None` when the clock is before it.
fn epoch_micros() -> Option<u128> {
    let now = system_now();
    match since_unix_epoch(&now) {
        Some(d) => Some(duration_micros(&d)),
        None => None,
    }
}

/// How the host reports a microsecond reading: cut to 64 bits, 0 before the epoch.
pub fn micros_or_zero(reading: Option<u128>) -> (r: u64)
    ensures
        r == (match reading {
            Some(us) => us as u64,
            None => 0u64,
        }),
{
    match reading {
        Some(us) => us as u64,
        None => 0,
    }
}

/// The current wall-clock time in microseconds since the UNIX epoch (0 before the epoch).
pub fn host_now_us() -> u64 {
    micros_or_zero(epoch_micros())
}

/// The current wall-clock time in whole seconds since the UNIX epoch (0 before the epoch).
pub fn host_now_secs() -> u64 {
    let now = system_now();
    match since_unix_epoch(&now) {
        Some(d) => duration_secs(&d),
        None => 0,
    }
}

/// The current wall-clock time in microseconds since the UNIX epoch, at full width (0 before
/// the epoch).
pub fn host_now_us_wide() -> u128 {
    match epoch_micros() {
        Some(us) => us,
        None => 0,
    }
}

/// Latest host timestamp (micros since UNIX epoch) when an H.264 chunk was sent to the client.
pub struct StreamLatencyState {
    last_send_us: u64,
}

impl Default for StreamLatencyState {
    fn default() -> (r: Self)
        ensures
            r.spec_last_send_us() == 0,
    {
        StreamLatencyState { last_send_us: 0 }
    }
}

impl StreamLatencyState {
    pub closed spec fn spec_last_send_us(&self) -> u64 {
        self.last_send_us
    }

    /// Records a send at the given time.
    pub fn mark_send_at(&mut self, now_us: u64)
        ensures
            final(self).spec_last_send_us() == now_us,
    {
        self.last_send_us = now_us;
    }

    /// Records a send now.
    pub fn mark_send_now(&mut self) {
        let now_us = host_now_us();
        self.mark_send_at(now_us);
    }

    /// The time of the latest recorded send.
    pub fn last_send_us(&self) -> (r: u64)
        ensures
            r == self.spec_last_send_us(),
    {
        self.last_send_us
    }
}

} // verus!
