use vstd::prelude::*;

use crate::quantity::Quantity;
use crate::vendor::{Metric, metrics_view};

verus! {

/// Counts added by moving from reading `prev` to reading `new` on a counter
/// whose range ends at `max`: a reading below the previous one means the
/// counter wrapped once.
pub open spec fn wrap_delta(prev: nat, new: nat, max: nat) -> nat {
    if new < prev {
        ((max - prev) + new) as nat
    } else {
        (new - prev) as nat
    }
}

/// The abstract state of an energy zone: its range, the last reading and
/// the counts accumulated since the first reading.
pub struct ZoneState {
    pub max: nat,
    pub previous: nat,
    pub cumulative: nat,
}

impl ZoneState {
    /// The state after one more reading.
    pub open spec fn step(self, reading: nat) -> ZoneState {
        ZoneState {
            max: self.max,
            previous: reading,
            cumulative: self.cumulative + wrap_delta(self.previous, reading, self.max),
        }
    }

    /// The state after a sequence of readings, in order.
    pub open spec fn feed(self, readings: Seq<nat>) -> ZoneState
        decreases readings.len(),
    {
        if readings.len() == 0 {
            self
        } else {
            self.feed(readings.drop_last()).step(readings.last())
        }
    }
}

/// Why a reading was not taken into account.
#[derive(Clone, Copy, Debug, PartialEq, Eq, Structural)]
pub enum ZoneError {
    /// The reading lies above the zone's documented range.
    ReadingAboveRange,
    /// The accumulated count no longer fits in 64 bits.
    CounterOverflow,
    /// A counter resolution of zero counts per joule.
    ZeroResolution,
}

/// One energy zone (package, core, DRAM, ...) whose free-running counter is
/// accumulated across samples, with wraparound corrected.
pub struct EnergyZone {
    zone_id: u32,
    raw_counter_max: u64,
    counts_per_joule: u64,
    start_reading: u64,
    previous: u64,
    last_delta: u64,
    cumulative: u64,
}

impl View for EnergyZone {
    type V = ZoneState;

    closed spec fn view(&self) -> ZoneState {
        ZoneState {
            max: self.raw_counter_max as nat,
            previous: self.previous as nat,
            cumulative: self.cumulative as nat,
        }
    }
}

impl EnergyZone {
    pub closed spec fn spec_zone_id(self) -> u32 {
        self.zone_id
    }

    pub closed spec fn spec_counts_per_joule(self) -> u64 {
        self.counts_per_joule
    }

    pub closed spec fn spec_start_reading(self) -> u64 {
        self.start_reading
    }

    pub closed spec fn spec_last_delta(self) -> u64 {
        self.last_delta
    }

    pub closed spec fn wf(self) -> bool {
        &&& self.previous <= self.raw_counter_max
        &&& self.start_reading <= self.raw_counter_max
        &&& self.counts_per_joule > 0
        &&& self.last_delta <= self.raw_counter_max
    }

    /// Starts a zone at its first reading. `counts_per_joule` is the
    /// counter's resolution (a power of two for registers, a million for
    /// micro-joule counter files).
    pub fn new(zone_id: u32, raw_counter_max: u64, counts_per_joule: u64, first_reading: u64) -> (r:
        Result<EnergyZone, ZoneError>)
        ensures
            counts_per_joule == 0 ==> r == Err::<EnergyZone, ZoneError>(ZoneError::ZeroResolution),
            counts_per_joule > 0 && first_reading > raw_counter_max ==> r == Err::<
                EnergyZone,
                ZoneError,
            >(ZoneError::ReadingAboveRange),
            counts_per_joule > 0 && first_reading <= raw_counter_max ==> (r matches Ok(z) && {
                &&& z.wf()
                &&& z@ == (ZoneState {
                    max: raw_counter_max as nat,
                    previous: first_reading as nat,
                    cumulative: 0,
                })
                &&& z.spec_zone_id() == zone_id
                &&& z.spec_counts_per_joule() == counts_per_joule
                &&& z.spec_start_reading() == first_reading
                &&& z.spec_last_delta() == 0
            }),
    {
        if counts_per_joule == 0 {
            return Err(ZoneError::ZeroResolution);
        }
        if first_reading > raw_counter_max {
            return Err(ZoneError::ReadingAboveRange);
        }
        Ok(EnergyZone {
            zone_id,
            raw_counter_max,
            counts_per_joule,
            start_reading: first_reading,
            previous: first_reading,
            last_delta: 0,
            cumulative: 0,
        })
    }

    pub fn zone_id(&self) -> (r: u32)
        ensures
            r == self.spec_zone_id(),
    {
        self.zone_id
    }

    pub fn start_reading(&self) -> (r: u64)
        ensures
            r == self.spec_start_reading(),
    {
        self.start_reading
    }

    pub fn previous_reading(&self) -> (r: u64)
        ensures
            r as nat == self@.previous,
    {
        self.previous
    }

    pub fn cumulative_counts(&self) -> (r: u64)
        ensures
            r as nat == self@.cumulative,
    {
        self.cumulative
    }

    /// Takes one reading into account. A reading above the range, or one
    /// whose count would overflow, leaves the zone as it was.
    pub fn record(&mut self, reading: u64) -> (r: Result<u64, ZoneError>)
        requires
            old(self).wf(),
        ensures
            final(self).wf(),
            final(self).spec_zone_id() == old(self).spec_zone_id(),
            final(self).spec_counts_per_joule() == old(self).spec_counts_per_joule(),
            final(self).spec_start_reading() == old(self).spec_start_reading(),
            reading > old(self)@.max ==> r == Err::<u64, ZoneError>(ZoneError::ReadingAboveRange),
            reading <= old(self)@.max && old(self)@.cumulative + wrap_delta(
                old(self)@.previous,
                reading as nat,
                old(self)@.max,
            ) > u64::MAX ==> r == Err::<u64, ZoneError>(ZoneError::CounterOverflow),
            r is Err ==> *final(self) == *old(self),
            r matches Ok(d) ==> {
                &&& d as nat == wrap_delta(old(self)@.previous, reading as nat, old(self)@.max)
                &&& final(self)@ == old(self)@.step(reading as nat)
                &&& final(self).spec_last_delta() == d
            },
            reading <= old(self)@.max && old(self)@.cumulative + wrap_delta(
                old(self)@.previous,
                reading as nat,
                old(self)@.max,
            ) <= u64::MAX ==> r is Ok,
    {
        if reading > self.raw_counter_max {
            return Err(ZoneError::ReadingAboveRange);
        }
        let delta: u64 = if reading < self.previous {
            (self.raw_counter_max - self.previous) + reading
        } else {
            reading - self.previous
        };
        match self.cumulative.checked_add(delta) {
            None => Err(ZoneError::CounterOverflow),
            Some(c) => {
                self.cumulative = c;
                self.previous = reading;
                self.last_delta = delta;
                Ok(delta)
            },
        }
    }

    /// The accumulated energy in joules.
    pub open spec fn spec_joules(self) -> Quantity {
        Quantity {
            numerator: self@.cumulative as i128,
            denominator: self.spec_counts_per_joule() as u128,
        }
    }

    /// `counts` spread over `ms` milliseconds, in watts; none for no time.
    pub open spec fn spec_power(self, counts: nat, ms: u64) -> Option<Quantity> {
        if ms == 0 {
            None
        } else {
            Some(
                Quantity {
                    numerator: (1000 * counts) as i128,
                    denominator: (self.spec_counts_per_joule() * ms) as u128,
                },
            )
        }
    }

    /// The accumulated energy in joules.
    pub fn cumulative_joules(&self) -> (r: Quantity)
        requires
            self.wf(),
        ensures
            r.wf(),
            r == self.spec_joules(),
    {
        Quantity { numerator: self.cumulative as i128, denominator: self.counts_per_joule as u128 }
    }

    /// Average power since the first reading, in watts, given the
    /// milliseconds elapsed since then; none for no elapsed time.
    pub fn watts(&self, elapsed_ms: u64) -> (r: Option<Quantity>)
        requires
            self.wf(),
        ensures
            r == self.spec_power(self@.cumulative, elapsed_ms),
            r matches Some(q) ==> q.wf(),
    {
        power(self.cumulative, self.counts_per_joule, elapsed_ms)
    }

    /// Average power over the last interval, in watts, given the
    /// milliseconds between the last two readings; none for no elapsed time.
    pub fn watts_since_last(&self, interval_ms: u64) -> (r: Option<Quantity>)
        requires
            self.wf(),
        ensures
            r == self.spec_power(self.spec_last_delta() as nat, interval_ms),
            r matches Some(q) ==> q.wf(),
    {
        power(self.last_delta, self.counts_per_joule, interval_ms)
    }
}

/// The metrics of a counter-file zone named `name`: its energy in joules,
/// its average power since the first reading and over the last interval,
/// each power only where time has passed.
pub open spec fn zone_metrics_spec(
    name: Seq<char>,
    zone: EnergyZone,
    since_start_ms: u64,
    since_last_ms: u64,
) -> Seq<(Seq<char>, Quantity)> {
    let energy = seq![(name + "_ENERGY (J)"@, zone.spec_joules())];
    let average = match zone.spec_power(zone@.cumulative, since_start_ms) {
        Some(q) => seq![(name + "_POWER (Watts)"@, q)],
        None => Seq::empty(),
    };
    let last = match zone.spec_power(zone.spec_last_delta() as nat, since_last_ms) {
        Some(q) => seq![(name + "_POWER_SINCE_LAST (Watts)"@, q)],
        None => Seq::empty(),
    };
    energy + average + last
}

fn suffixed(name: &str, suffix: &str) -> (r: String)
    ensures
        r@ == name@ + suffix@,
{
    let mut s = String::from_str(name);
    s.append(suffix);
    s
}

/// The readings of one counter-file zone for one tick.
pub fn zone_metrics(name: &str, zone: &EnergyZone, since_start_ms: u64, since_last_ms: u64) -> (r:
    Vec<Metric>)
    requires
        zone.wf(),
    ensures
        metrics_view(r@) == zone_metrics_spec(name@, *zone, since_start_ms, since_last_ms),
{
    let mut r: Vec<Metric> = Vec::new();
    r.push(Metric { name: suffixed(name, "_ENERGY (J)"), value: zone.cumulative_joules() });
    match zone.watts(since_start_ms) {
        Some(q) => {
            r.push(Metric { name: suffixed(name, "_POWER (Watts)"), value: q });
        },
        None => {},
    }
    match zone.watts_since_last(since_last_ms) {
        Some(q) => {
            r.push(Metric { name: suffixed(name, "_POWER_SINCE_LAST (Watts)"), value: q });
        },
        None => {},
    }
    assert(metrics_view(r@) =~= zone_metrics_spec(name@, *zone, since_start_ms, since_last_ms));
    r
}

/// `counts` at `counts_per_joule` spread over `ms` milliseconds, in watts.
fn power(counts: u64, counts_per_joule: u64, ms: u64) -> (r: Option<Quantity>)
    requires
        counts_per_joule > 0,
    ensures
        ms == 0 <==> r is None,
        r matches Some(q) ==> q.wf() && q.num() == 1000 * counts && q.den() == counts_per_joule
            * ms,
{
    if ms == 0 {
        return None;
    }
    proof {
        assert(counts_per_joule * ms <= u64::MAX * u64::MAX) by (nonlinear_arith)
            requires counts_per_joule <= u64::MAX, ms <= u64::MAX;
        assert(counts_per_joule * ms > 0) by (nonlinear_arith)
            requires counts_per_joule > 0, ms > 0;
    }
    let n: i128 = 1000 * (counts as i128);
    let d: u128 = (counts_per_joule as u128) * (ms as u128);
    Some(Quantity { numerator: n, denominator: d })
}

/// Readings that never leave the zone's range never make its accumulated
/// count go down: after any prefix of them the count is at most what it is
/// after any longer prefix.
pub proof fn cumulative_never_decreases(z: ZoneState, readings: Seq<nat>, i: int, j: int)
    requires
        z.previous <= z.max,
        forall|k: int| 0 <= k < readings.len() ==> readings[k] <= z.max,
        0 <= i <= j <= readings.len(),
    ensures
        z.feed(readings.take(i)).cumulative <= z.feed(readings.take(j)).cumulative,
    decreases j - i,
{
    if i < j {
        cumulative_never_decreases(z, readings, i, j - 1);
        let p = readings.take(j);
        assert(p.drop_last() =~= readings.take(j - 1));
        lemma_feed_max(z, readings.take(j - 1));
    }
}

proof fn lemma_feed_max(z: ZoneState, readings: Seq<nat>)
    ensures
        z.feed(readings).max == z.max,
        readings.len() == 0 ==> z.feed(readings).previous == z.previous,
        readings.len() > 0 ==> z.feed(readings).previous == readings.last(),
    decreases readings.len(),
{
    if readings.len() > 0 {
        lemma_feed_max(z, readings.drop_last());
    }
}

/// An ASCII decimal digit.
pub open spec fn is_digit(b: u8) -> bool {
    48 <= b <= 57
}

/// ASCII blank: space, tab, line feed, carriage return.
pub open spec fn is_blank(b: u8) -> bool {
    b == 32 || b == 9 || b == 10 || b == 13
}

/// The number that a string of decimal digits stands for.
pub open spec fn digits_value(s: Seq<u8>) -> nat
    decreases s.len(),
{
    if s.len() == 0 {
        0
    } else {
        digits_value(s.drop_last()) * 10 + (s.last() - 48) as nat
    }
}

/// The length of `s` without its trailing blanks.
pub open spec fn trimmed_len(s: Seq<u8>) -> nat
    decreases s.len(),
{
    if s.len() > 0 && is_blank(s.last()) {
        trimmed_len(s.drop_last())
    } else {
        s.len()
    }
}

/// What a counter file holds: a non-empty run of decimal digits, which
/// trailing blanks may follow.
pub open spec fn counter_text_value(s: Seq<u8>) -> Option<nat> {
    let t = s.take(trimmed_len(s) as int);
    if t.len() > 0 && forall|k: int| 0 <= k < t.len() ==> is_digit(#[trigger] t[k]) {
        Some(digits_value(t))
    } else {
        None
    }
}

/// Reads an energy counter file: its decimal integer, or none where the
/// text is no such integer or the integer does not fit in 64 bits.
pub fn parse_counter(text: &[u8]) -> (r: Option<u64>)
    ensures
        r is Some <==> (counter_text_value(text@) is Some && counter_text_value(text@)->0
            <= u64::MAX),
        r matches Some(v) ==> counter_text_value(text@) == Some(v as nat),
{
    let mut n: usize = text.len();
    assert(text@.take(text@.len() as int) =~= text@);
    while n > 0 && (text[n - 1] == 32 || text[n - 1] == 9 || text[n - 1] == 10 || text[n - 1]
        == 13)
        invariant
            n <= text@.len(),
            trimmed_len(text@.take(n as int)) == trimmed_len(text@),
        decreases n,
    {
        assert(text@.take(n as int).drop_last() =~= text@.take(n - 1));
        n = n - 1;
    }
    proof {
        assert(text@.take(text@.len() as int) =~= text@);
        if n > 0 {
            assert(text@.take(n as int).last() == text@[n - 1]);
        }
        assert(trimmed_len(text@.take(n as int)) == n);
    }
    let ghost t = text@.take(n as int);
    assert(t.len() == n);
    assert(trimmed_len(text@) == n);
    if n == 0 {
        return None;
    }
    let mut i: usize = 0;
    while i < n
        invariant
            i <= n,
            n <= text@.len(),
            t == text@.take(n as int),
            trimmed_len(text@) == n,
            forall|k: int| 0 <= k < i ==> is_digit(#[trigger] t[k]),
        decreases n - i,
    {
        if text[i] < 48 || text[i] > 57 {
            assert(!is_digit(t[i as int]));
            assert(counter_text_value(text@) is None);
            return None;
        }
        i = i + 1;
    }
    let mut v: u64 = 0;
    let mut j: usize = 0;
    while j < n
        invariant
            j <= n,
            n <= text@.len(),
            t == text@.take(n as int),
            trimmed_len(text@) == n,
            forall|k: int| 0 <= k < n ==> is_digit(#[trigger] t[k]),
            v as nat == digits_value(t.take(j as int)),
        decreases n - j,
    {
        assert(is_digit(t[j as int]) && t[j as int] == text@[j as int]);
        let d: u64 = (text[j] - 48) as u64;
        assert(t.take(j + 1).drop_last() =~= t.take(j as int));
        assert(t.take(j + 1).last() == t[j as int]);
        if v > (u64::MAX - d) / 10 {
            proof {
                lemma_digits_prefix(t, j + 1);
                assert(v * 10 + d > u64::MAX) by (nonlinear_arith)
                    requires v > (u64::MAX - d) / 10, d <= 9;
                assert(counter_text_value(text@) == Some(digits_value(t)));
            }
            return None;
        }
        v = v * 10 + d;
        j = j + 1;
    }
    assert(t.take(n as int) =~= t);
    Some(v)
}

proof fn lemma_digits_prefix(t: Seq<u8>, i: int)
    requires
        0 <= i <= t.len(),
        forall|k: int| 0 <= k < t.len() ==> is_digit(#[trigger] t[k]),
    ensures
        digits_value(t.take(i)) <= digits_value(t),
    decreases t.len() - i,
{
    if i < t.len() {
        lemma_digits_prefix(t, i + 1);
        assert(t.take(i + 1).drop_last() =~= t.take(i));
    } else {
        assert(t.take(i) =~= t);
    }
}

} // verus!
