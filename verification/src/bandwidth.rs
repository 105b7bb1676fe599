//! The bandwidth limit: how many bytes may leave in a tick, in a window and in a second.

use vstd::prelude::*;

verus! {

/// Ticks in a second.
pub const TIME_RESOLUTION: usize = 50;

/// Ticks in the window before the current tick.
pub const WINDOW_LENGTH: usize = 5;

pub const MILLIS_PER_TICK: u64 = 20;

/// What was sent in each tick of about a second.
#[derive(Debug)]
pub struct BandwidthMonitor {
    bytes_per_tick: u32,
    tick_bytes: Vec<u32>,
    tick_seconds: Vec<u64>,
}

/// The number of the tick at a time in milliseconds.
pub open spec fn tick_of(now_millis: u64) -> int {
    (now_millis as int / 1000) * 50 + (now_millis as int % 1000) / 20
}

/// The limit of one tick: a fiftieth of the limit of a second, rounded up.
pub open spec fn tick_limit(throttle: u32) -> int {
    (throttle as int + 49) / 50
}

impl BandwidthMonitor {
    /// The bytes that were sent in the tick with that number, as far as they are kept.
    pub closed spec fn bytes_in(&self, tick: int) -> int {
        if self.tick_seconds@[tick % 50] == tick / 50 {
            self.tick_bytes@[tick % 50] as int
        } else {
            0
        }
    }

    pub closed spec fn limit(&self) -> int {
        self.bytes_per_tick as int
    }

    /// Fifty ticks are kept, of seconds that a clock can show.
    pub closed spec fn wf(&self) -> bool {
        &&& self.tick_bytes@.len() == 50
        &&& self.tick_seconds@.len() == 50
        &&& self.bytes_per_tick <= 85_899_346
        &&& forall|i: int| 0 <= i < 50 ==> #[trigger] self.tick_seconds@[i] <= u64::MAX / 1000
    }

    /// The bytes of the ticks from `from` up to `to`.
    pub open spec fn bytes_between(&self, from: int, to: int) -> int
        decreases to - from,
    {
        if from >= to {
            0
        } else {
            self.bytes_between(from, to - 1) + self.bytes_in(to - 1)
        }
    }

    /// Whether more was sent than the limits allow: a tenth above the limit in this tick, a
    /// twentieth above it in the five ticks before, or above it in the 49 ticks before.
    pub open spec fn exceeded(&self, tick: int) -> bool {
        ||| 10 * self.bytes_in(tick) > 11 * self.limit()
        ||| 4 * self.bytes_between(tick - 5, tick) > 21 * self.limit()
        ||| self.bytes_between(tick - 49, tick) > 50 * self.limit()
    }

    pub fn new(throttle_bytes_per_sec: u32) -> (r: Self)
        ensures
            r.wf(),
            r.limit() == tick_limit(throttle_bytes_per_sec),
            forall|tick: int| #[trigger] r.bytes_in(tick) == 0,
    {
        let bytes_per_tick: u32 = ((throttle_bytes_per_sec as u64 + 49) / 50) as u32;
        let r = BandwidthMonitor {
            bytes_per_tick,
            tick_bytes: vec![0u32; 50],
            tick_seconds: vec![0u64; 50],
        };
        r
    }

    fn read_tick(&self, second: u64, index: usize) -> (r: u32)
        requires
            self.wf(),
            index < 50,
        ensures
            r == self.bytes_in(second as int * 50 + index),
    {
        proof {
            let t = second as int * 50 + index;
            assert(t / 50 == second as int);
            assert(t % 50 == index as int);
        }
        if self.tick_seconds[index] == second {
            self.tick_bytes[index]
        } else {
            0
        }
    }

    /// The bytes of the `count` ticks before the tick `index` of a second, at most 49.
    fn sum_before(&self, second: u64, index: usize, count: usize) -> (r: u64)
        requires
            self.wf(),
            index < 50,
            count <= 49,
        ensures
            r == self.bytes_between(
                second as int * 50 + index - count,
                second as int * 50 + index,
            ),
            r <= count * 0xffff_ffff,
    {
        let ghost tick = second as int * 50 + index;
        let mut sum: u64 = 0;
        let mut k: usize = 0;
        while k < count
            invariant
                self.wf(),
                index < 50,
                k <= count <= 49,
                tick == second as int * 50 + index,
                sum == self.bytes_between(tick - count, tick - count + k),
                sum <= k * 0xffff_ffff,
            decreases count - k,
        {
            let back: usize = count - k;
            let ghost t = tick - back;
            let bytes: u32 = if back <= index {
                self.read_tick(second, index - back)
            } else if second > 0 {
                proof {
                    assert((second - 1) as int * 50 + (50 + index - back) == t);
                }
                self.read_tick(second - 1, 50 + index - back)
            } else {
                proof {
                    assert(t < 0);
                    assert(t / 50 == -1);
                    assert(self.bytes_in(t) == 0);
                }
                0
            };
            assert(bytes == self.bytes_in(t));
            sum = sum + bytes as u64;
            k += 1;
        }
        sum
    }

    /// Takes `byte_count` bytes out of the quota at that time, unless a limit is exceeded.
    /// Says whether it did; the caller asks again later where it did not.
    pub fn request_quota(&mut self, byte_count: usize, now_millis: u64) -> (r: bool)
        requires
            old(self).wf(),
        ensures
            final(self).wf(),
            final(self).limit() == old(self).limit(),
            r == !old(self).exceeded(tick_of(now_millis)),
            !r ==> *final(self) == *old(self),
            r ==> final(self).bytes_in(tick_of(now_millis)) == (old(self).bytes_in(tick_of(now_millis))
                + (byte_count as u32)) % 0x1_0000_0000,
            r ==> forall|tick: int|
                tick != tick_of(now_millis) ==> #[trigger] final(self).bytes_in(tick) == (if tick % 50
                    == tick_of(now_millis) % 50 {
                    0
                } else {
                    old(self).bytes_in(tick)
                }),
    {
        let second: u64 = now_millis / 1000;
        let index: usize = ((now_millis % 1000) / MILLIS_PER_TICK) as usize;
        let ghost tick = tick_of(now_millis);
        assert(tick == second as int * 50 + index);
        let limit: u64 = self.bytes_per_tick as u64;
        let in_tick: u64 = self.read_tick(second, index) as u64;
        let in_window: u64 = self.sum_before(second, index, 5);
        let in_second: u64 = self.sum_before(second, index, 49);
        if 10 * in_tick > 11 * limit || 4 * in_window > 21 * limit || in_second > 50 * limit {
            return false;
        }
        let count: u32 = #[verifier::truncate]
        (byte_count as u32);
        let ghost before = *self;
        let sent: u32 = (in_tick as u32).wrapping_add(count);
        self.tick_seconds.set(index, second);
        self.tick_bytes.set(index, sent);
        proof {
            assert(tick % 50 == index as int);
            assert(tick / 50 == second as int);
            assert forall|t: int| t != tick implies #[trigger] self.bytes_in(t) == (if t % 50 == tick % 50 {
                0
            } else {
                before.bytes_in(t)
            }) by {
                if t % 50 == tick % 50 {
                    assert(t / 50 != tick / 50);
                }
            }
        }
        true
    }
}

/// Where quota is granted for `count` bytes, little more was sent than the limit allows: a tenth
/// above it in this tick, and in the second that ends with the tick what a tick more allows, each
/// with the bytes that are granted.
pub proof fn granted_bytes_stay_near_the_limit(m: BandwidthMonitor, tick: int, count: int)
    requires
        m.wf(),
        count >= 0,
        !m.exceeded(tick),
    ensures
        10 * (m.bytes_in(tick) + count) <= 11 * m.limit() + 10 * count,
        10 * (m.bytes_between(tick - 49, tick + 1) + count) <= 511 * m.limit() + 10 * count,
{
}

/// Where nothing was sent for a second, something may be sent.
pub proof fn idle_monitor_grants(m: BandwidthMonitor, now_millis: u64)
    requires
        m.wf(),
        forall|tick: int|
            tick_of(now_millis) - 50 < tick <= tick_of(now_millis) ==> #[trigger] m.bytes_in(tick) == 0,
    ensures
        !m.exceeded(tick_of(now_millis)),
{
    let t = tick_of(now_millis);
    lemma_no_bytes(m, t - 5, t);
    lemma_no_bytes(m, t - 49, t);
    lemma_limit(m);
}

proof fn lemma_limit(m: BandwidthMonitor)
    ensures
        m.limit() >= 0,
{
}

proof fn lemma_no_bytes(m: BandwidthMonitor, from: int, to: int)
    requires
        forall|tick: int| from <= tick < to ==> #[trigger] m.bytes_in(tick) == 0,
    ensures
        m.bytes_between(from, to) == 0,
    decreases to - from,
{
    if from < to {
        lemma_no_bytes(m, from, to - 1);
    }
}

} // verus!
