//! A token bucket sized in bytes.
//!
//! The bucket fills at `capacity_per_second` tokens per second up to
//! `max_burst` and is drawn down by granted requests. There is no timer:
//! every call brings the time, in ticks of a monotonic clock, and the fill
//! since the previous call is worked out then. A request that cannot be
//! granted yet takes nothing from the bucket; it reports how long to wait.

use vstd::prelude::*;

verus! {

/// Clock ticks per second: the clock counts microseconds.
pub const TICKS_PER_SECOND: u64 = 1_000_000;

/// Why a throttle refused.
#[derive(Debug, Clone, Copy, PartialEq, Eq, Structural)]
pub enum Error {
    /// The configured rate is zero.
    ZeroCapacity,
    /// The configured burst is zero.
    ZeroBurst,
    /// More bytes were asked for than the bucket can ever hold.
    RequestExceedsBurst,
}

/// The burst model of a throttle.
#[derive(Debug, Clone, Copy, PartialEq, Eq, Structural)]
pub struct Config {
    /// Largest number of bytes the bucket holds. `None` stands for one
    /// second's worth.
    pub max_burst: Option<u32>,
}

impl Default for Config {
    fn default() -> (r: Self)
        ensures
            r.max_burst is None,
    {
        Config { max_burst: None }
    }
}

/// The answer to a request for bytes.
#[derive(Debug, Clone, Copy, PartialEq, Eq, Structural)]
pub enum Decision {
    /// The bytes were taken from the bucket.
    Granted,
    /// Nothing was taken. After this many ticks the same request is granted,
    /// and not before.
    Wait(u64),
}

/// What a bucket holds and how it fills: the model that contracts speak of.
#[derive(Debug, Clone, Copy, PartialEq, Eq, Structural)]
pub struct Bucket {
    /// Fill rate, in bytes per second.
    pub capacity_per_second: u32,
    /// The most the bucket holds.
    pub max_burst: u32,
    /// Whole tokens held as of `last_refill`.
    pub accumulated: u32,
    /// Millionths of a token that have accrued beyond `accumulated`.
    pub fraction: u64,
    /// The time of the latest fill.
    pub last_refill: u64,
}

/// One throttle: a bucket behind an interface that keeps it well formed.
#[derive(Debug, Clone, Copy)]
pub struct Throttle {
    bucket: Bucket,
}

/// The bucket after time has passed, before anything is taken: what it holds
/// in whole tokens and in millionths.
pub open spec fn filled(
    accumulated: int,
    fraction: int,
    max_burst: int,
    capacity: int,
    elapsed: int,
) -> (int, int) {
    let gained = fraction + elapsed * capacity;
    let total = accumulated + gained / (TICKS_PER_SECOND as int);
    if total >= max_burst {
        (max_burst, 0)
    } else {
        (total, gained % (TICKS_PER_SECOND as int))
    }
}

impl Bucket {
    /// The state invariant: a positive rate and burst, a balance within the
    /// burst, and no fraction carried by a full bucket.
    pub open spec fn wf(self) -> bool {
        &&& self.capacity_per_second > 0
        &&& self.max_burst > 0
        &&& self.accumulated <= self.max_burst
        &&& self.fraction < TICKS_PER_SECOND
        &&& self.accumulated == self.max_burst ==> self.fraction == 0
    }

    /// The bucket's holdings in millionths of a token.
    pub open spec fn balance(self) -> int {
        self.accumulated * (TICKS_PER_SECOND as int) + self.fraction
    }

    /// The state at time `now` if nothing is taken. A `now` that lies before
    /// the latest fill changes nothing.
    pub open spec fn refilled(self, now: u64) -> Bucket {
        if now <= self.last_refill {
            self
        } else {
            let (whole, part) = filled(
                self.accumulated as int,
                self.fraction as int,
                self.max_burst as int,
                self.capacity_per_second as int,
                now - self.last_refill,
            );
            Bucket { accumulated: whole as u32, fraction: part as u64, last_refill: now, ..self }
        }
    }

    /// The state after `bytes` have been taken.
    pub open spec fn charged(self, bytes: u32) -> Bucket {
        Bucket { accumulated: (self.accumulated - bytes) as u32, ..self }
    }

    /// For a bucket that holds less than `bytes`: the ticks after which it
    /// holds them.
    pub open spec fn wait_for(self, bytes: u32) -> int {
        ((bytes - self.accumulated) * (TICKS_PER_SECOND as int) - self.fraction - 1) / (
        self.capacity_per_second as int) + 1
    }

    /// What a request for `bytes` at time `now` leaves behind and how many
    /// bytes it takes.
    pub open spec fn after_request(self, bytes: u32, now: u64) -> (Bucket, int) {
        if bytes > self.max_burst {
            (self, 0)
        } else if self.refilled(now).accumulated >= bytes {
            (self.refilled(now).charged(bytes), bytes as int)
        } else {
            (self.refilled(now), 0)
        }
    }
}

impl View for Throttle {
    type V = Bucket;

    closed spec fn view(&self) -> Bucket {
        self.bucket
    }
}

impl Throttle {
    /// The state invariant, that of the bucket.
    pub open spec fn wf(self) -> bool {
        self@.wf()
    }

    /// A bucket for `maximum_capacity` bytes per second, empty at time `now`.
    /// Fails exactly when the rate or the configured burst is zero.
    pub fn new_with_config(config: Config, maximum_capacity: u32, now: u64) -> (r: Result<
        Throttle,
        Error,
    >)
        ensures
            maximum_capacity == 0 ==> r == Err::<Throttle, Error>(Error::ZeroCapacity),
            maximum_capacity > 0 && config.max_burst == Some(0u32) ==> r == Err::<Throttle, Error>(
                Error::ZeroBurst,
            ),
            maximum_capacity > 0 && config.max_burst != Some(0u32) ==> r is Ok && {
                let t = r->Ok_0;
                &&& t.wf()
                &&& t@ == (Bucket {
                    capacity_per_second: maximum_capacity,
                    max_burst: match config.max_burst {
                        Some(burst) => burst,
                        None => maximum_capacity,
                    },
                    accumulated: 0,
                    fraction: 0,
                    last_refill: now,
                })
            },
    {
        if maximum_capacity == 0 {
            return Err(Error::ZeroCapacity);
        }
        let max_burst: u32 = match config.max_burst {
            Some(burst) => burst,
            None => maximum_capacity,
        };
        if max_burst == 0 {
            return Err(Error::ZeroBurst);
        }
        Ok(
            Throttle {
                bucket: Bucket {
                    capacity_per_second: maximum_capacity,
                    max_burst,
                    accumulated: 0,
                    fraction: 0,
                    last_refill: now,
                },
            },
        )
    }

    /// The configured fill rate, in bytes per second.
    pub fn rate(&self) -> (r: u32)
        ensures
            r == self@.capacity_per_second,
    {
        self.bucket.capacity_per_second
    }

    /// The most the bucket holds.
    pub fn burst(&self) -> (r: u32)
        ensures
            r == self@.max_burst,
    {
        self.bucket.max_burst
    }

    /// Whole tokens in the bucket as of the latest fill.
    pub fn available(&self) -> (r: u32)
        ensures
            r == self@.accumulated,
    {
        self.bucket.accumulated
    }

    /// Brings the bucket up to time `now`.
    fn refill(&mut self, now: u64)
        requires
            old(self).wf(),
        ensures
            final(self)@ == old(self)@.refilled(now),
            final(self).wf(),
    {
        if now <= self.bucket.last_refill {
            return ;
        }
        let elapsed: u64 = now - self.bucket.last_refill;
        let capacity: u128 = self.bucket.capacity_per_second as u128;
        assert((elapsed as int) * (capacity as int) <= 0xffff_ffff_ffff_ffff * 0xffff_ffff)
            by (nonlinear_arith)
            requires
                0 <= elapsed <= 0xffff_ffff_ffff_ffff,
                0 <= capacity <= 0xffff_ffff,
        ;
        let gained: u128 = self.bucket.fraction as u128 + (elapsed as u128) * capacity;
        let whole: u128 = gained / (TICKS_PER_SECOND as u128);
        let room: u32 = self.bucket.max_burst - self.bucket.accumulated;
        if whole >= room as u128 {
            self.bucket.accumulated = self.bucket.max_burst;
            self.bucket.fraction = 0;
        } else {
            self.bucket.accumulated = self.bucket.accumulated + whole as u32;
            self.bucket.fraction = (gained % (TICKS_PER_SECOND as u128)) as u64;
        }
        self.bucket.last_refill = now;
    }

    /// Asks for `bytes` at time `now`.
    ///
    /// A request above the burst fails and leaves the bucket as it was.
    /// Otherwise the bucket is first filled up to `now`. If it then holds
    /// `bytes`, they are taken. If not, nothing is taken, and the answer is
    /// the least number of ticks after which the same request is granted.
    pub fn request(&mut self, bytes: u32, now: u64) -> (r: Result<Decision, Error>)
        requires
            old(self).wf(),
            bytes > 0,
        ensures
            final(self).wf(),
            final(self)@ == old(self)@.after_request(bytes, now).0,
            bytes > old(self)@.max_burst <==> r == Err::<Decision, Error>(
                Error::RequestExceedsBurst,
            ),
            bytes <= old(self)@.max_burst ==> r is Ok,
            r == Ok::<Decision, Error>(Decision::Granted) <==> bytes <= old(self)@.max_burst
                && old(self)@.refilled(now).accumulated >= bytes,
            r matches Ok(Decision::Wait(ticks)) ==> {
                &&& ticks > 0
                &&& ticks == old(self)@.refilled(now).wait_for(bytes)
                &&& is_shortest_wait(old(self)@.refilled(now), bytes, ticks)
            },
    {
        if bytes > self.bucket.max_burst {
            return Err(Error::RequestExceedsBurst);
        }
        self.refill(now);
        if self.bucket.accumulated >= bytes {
            self.bucket.accumulated = self.bucket.accumulated - bytes;
            return Ok(Decision::Granted);
        }
        let missing: u64 = (bytes - self.bucket.accumulated) as u64 * TICKS_PER_SECOND
            - self.bucket.fraction;
        let capacity: u64 = self.bucket.capacity_per_second as u64;
        let ticks: u64 = (missing - 1) / capacity + 1;
        proof {
            lemma_shortest_wait(self.bucket, bytes, ticks);
        }
        Ok(Decision::Wait(ticks))
    }
}

/// `ticks` more ticks bring `bytes` into the bucket `t`, and one tick fewer
/// does not. The bucket is taken as of its latest fill.
pub open spec fn is_shortest_wait(t: Bucket, bytes: u32, ticks: u64) -> bool {
    let after = filled(
        t.accumulated as int,
        t.fraction as int,
        t.max_burst as int,
        t.capacity_per_second as int,
        ticks as int,
    );
    let before = filled(
        t.accumulated as int,
        t.fraction as int,
        t.max_burst as int,
        t.capacity_per_second as int,
        ticks - 1,
    );
    after.0 >= bytes && before.0 < bytes
}

/// The wait that a request is told is the shortest that will do.
pub proof fn lemma_shortest_wait(t: Bucket, bytes: u32, ticks: u64)
    requires
        t.wf(),
        t.accumulated < bytes <= t.max_burst,
        ticks == t.wait_for(bytes),
    ensures
        ticks > 0,
        is_shortest_wait(t, bytes, ticks),
{
    let unit = TICKS_PER_SECOND as int;
    let cap = t.capacity_per_second as int;
    let acc = t.accumulated as int;
    let frac = t.fraction as int;
    let need = bytes - acc;
    let missing = need * unit - frac;
    assert(missing >= 1) by (nonlinear_arith)
        requires
            need >= 1,
            0 <= frac < unit,
            missing == need * unit - frac,
    ;
    let q = (missing - 1) / cap;
    assert(q * cap <= missing - 1 < q * cap + cap) by {
        vstd::arithmetic::div_mod::lemma_fundamental_div_mod(missing - 1, cap);
        vstd::arithmetic::div_mod::lemma_mod_bound(missing - 1, cap);
        assert(cap * q == q * cap) by (nonlinear_arith);
    }
    assert(q >= 0) by (nonlinear_arith)
        requires
            missing - 1 >= 0,
            cap > 0,
            q == (missing - 1) / cap,
    ;
    assert(ticks == q + 1);
    // With `ticks` ticks at least `need` whole tokens have accrued.
    let gained_after = frac + ticks * cap;
    assert(gained_after >= need * unit) by (nonlinear_arith)
        requires
            gained_after == frac + (q + 1) * cap,
            missing - 1 < q * cap + cap,
            missing == need * unit - frac,
    ;
    assert(gained_after / unit >= need) by {
        vstd::arithmetic::div_mod::lemma_div_is_ordered(need * unit, gained_after, unit);
        vstd::arithmetic::div_mod::lemma_div_multiples_vanish(need, unit);
    }
    // With one tick fewer they have not.
    let gained_before = frac + (ticks - 1) * cap;
    assert(gained_before < need * unit) by (nonlinear_arith)
        requires
            gained_before == frac + q * cap,
            q * cap <= missing - 1,
            missing == need * unit - frac,
    ;
    assert(gained_before / unit < need) by {
        assert(gained_before >= 0) by (nonlinear_arith)
            requires
                gained_before == frac + q * cap,
                frac >= 0,
                q >= 0,
                cap > 0,
        ;
        vstd::arithmetic::div_mod::lemma_div_by_multiple_is_strongly_ordered(
            gained_before,
            need * unit,
            need,
            unit,
        );
        vstd::arithmetic::div_mod::lemma_div_multiples_vanish(need, unit);
    }
}

/// More time brings no less: what a bucket holds after a longer time is at
/// least what it holds after a shorter one. So a request that is told to
/// wait is granted at any time from the end of its wait on.
pub proof fn lemma_granted_after_wait(t: Bucket, bytes: u32, later: u64)
    requires
        t.wf(),
        t.accumulated < bytes <= t.max_burst,
        later >= t.last_refill + t.wait_for(bytes),
    ensures
        t.refilled(later).accumulated >= bytes,
{
    let ticks = t.wait_for(bytes);
    let unit = TICKS_PER_SECOND as int;
    let cap = t.capacity_per_second as int;
    let need = bytes - t.accumulated;
    assert((need * unit - t.fraction - 1) / cap >= 0) by (nonlinear_arith)
        requires
            need >= 1,
            0 <= t.fraction < unit,
            unit == 1_000_000,
            cap > 0,
    ;
    assert(0 < ticks);
    let elapsed = later - t.last_refill;
    let short = t.fraction + ticks * cap;
    let long = t.fraction + elapsed * cap;
    assert(short <= long) by (nonlinear_arith)
        requires
            ticks <= elapsed,
            cap > 0,
            short == t.fraction + ticks * cap,
            long == t.fraction + elapsed * cap,
    ;
    assert(need * unit <= short) by {
        let missing = need * unit - t.fraction;
        let q = (missing - 1) / cap;
        vstd::arithmetic::div_mod::lemma_fundamental_div_mod(missing - 1, cap);
        vstd::arithmetic::div_mod::lemma_mod_bound(missing - 1, cap);
        assert(cap * q == q * cap) by (nonlinear_arith);
        assert(short == t.fraction + (q + 1) * cap);
        assert((q + 1) * cap == q * cap + cap) by (nonlinear_arith);
    }
    vstd::arithmetic::div_mod::lemma_div_is_ordered(need * unit, long, unit);
    vstd::arithmetic::div_mod::lemma_div_multiples_vanish(need, unit);
}

/// One request of a trace: when it is made and for how many bytes.
pub struct Ask {
    /// The time of the request, in ticks.
    pub at: u64,
    /// The bytes asked for.
    pub bytes: u32,
}

/// The requests come at times that never go back, none before `start`.
pub open spec fn in_order(start: u64, asks: Seq<Ask>) -> bool
    decreases asks.len(),
{
    asks.len() > 0 ==> start <= asks[0].at && in_order(asks[0].at, asks.skip(1))
}

/// The bytes taken from the bucket `b` by the requests `asks`, made one
/// after the other.
pub open spec fn total_charged(b: Bucket, asks: Seq<Ask>) -> int
    decreases asks.len(),
{
    if asks.len() == 0 {
        0
    } else {
        let (next, took) = b.after_request(asks[0].bytes, asks[0].at);
        took + total_charged(next, asks.skip(1))
    }
}

/// The time of the last request, or `start` if there is none.
pub open spec fn end_of(start: u64, asks: Seq<Ask>) -> u64 {
    if asks.len() == 0 {
        start
    } else {
        asks.last().at
    }
}

/// Filling keeps a bucket well formed, moves its clock to `now`, and adds at
/// most the rate times the time passed.
pub proof fn lemma_refilled(b: Bucket, now: u64)
    requires
        b.wf(),
    ensures
        b.refilled(now).wf(),
        b.refilled(now).capacity_per_second == b.capacity_per_second,
        b.refilled(now).max_burst == b.max_burst,
        b.refilled(now).last_refill == if now <= b.last_refill {
            b.last_refill
        } else {
            now
        },
        b.refilled(now).accumulated >= b.accumulated,
        now >= b.last_refill ==> b.refilled(now).balance() <= b.balance() + b.capacity_per_second
            * (now - b.last_refill),
{
    if now > b.last_refill {
        let elapsed = now - b.last_refill;
        let cap = b.capacity_per_second as int;
        assert(elapsed * cap >= 0) by (nonlinear_arith)
            requires
                elapsed >= 0,
                cap >= 0,
        ;
        assert(cap * elapsed == elapsed * cap) by (nonlinear_arith);
    }
}

/// The rate ceiling. From any well-formed bucket, whatever is asked for and
/// whenever, the bytes granted up to the last request are at most what the
/// bucket held at the start plus what the rate yields over the time passed,
/// hence at most the burst plus the rate times the window.
pub proof fn lemma_rate_ceiling(b: Bucket, asks: Seq<Ask>)
    requires
        b.wf(),
        in_order(b.last_refill, asks),
    ensures
        total_charged(b, asks) >= 0,
        total_charged(b, asks) * TICKS_PER_SECOND <= b.balance() + b.capacity_per_second * (end_of(
            b.last_refill,
            asks,
        ) - b.last_refill),
        total_charged(b, asks) * TICKS_PER_SECOND <= b.max_burst * TICKS_PER_SECOND
            + b.capacity_per_second * (end_of(b.last_refill, asks) - b.last_refill),
    decreases asks.len(),
{
    if asks.len() > 0 {
        let first = asks[0];
        let rest = asks.skip(1);
        let (next, took) = b.after_request(first.bytes, first.at);
        lemma_refilled(b, first.at);
        assert(next.wf());
        assert(in_order(next.last_refill, rest)) by {
            if rest.len() > 0 {
                assert(in_order(first.at, rest));
            }
        }
        lemma_rate_ceiling(next, rest);
        let end = end_of(b.last_refill, asks);
        assert(end == end_of(first.at, rest)) by {
            if rest.len() > 0 {
                assert(rest.last() == asks.last());
            }
        }
        lemma_in_order_end(first.at, rest);
        let cap = b.capacity_per_second as int;
        let d1 = next.last_refill - b.last_refill;
        let d2 = end_of(next.last_refill, rest) - next.last_refill;
        assert(end_of(next.last_refill, rest) <= end);
        assert(cap * d1 + cap * d2 <= cap * (end - b.last_refill)) by (nonlinear_arith)
            requires
                cap >= 0,
                d1 + d2 <= end - b.last_refill,
        ;
        assert(took * TICKS_PER_SECOND + next.balance() <= b.balance() + cap * d1);
    }
}

/// The last request of an ordered trace is not before its start.
pub proof fn lemma_in_order_end(start: u64, asks: Seq<Ask>)
    requires
        in_order(start, asks),
    ensures
        start <= end_of(start, asks),
    decreases asks.len(),
{
    if asks.len() > 0 {
        let rest = asks.skip(1);
        lemma_in_order_end(asks[0].at, rest);
        if rest.len() > 0 {
            assert(rest.last() == asks.last());
        }
    }
}

/// Filling in two steps is filling in one: what a bucket holds at a time
/// depends on the time alone, not on how often it was looked at before.
pub proof fn lemma_refill_composes(b: Bucket, earlier: u64, later: u64)
    requires
        b.wf(),
        earlier <= later,
    ensures
        b.refilled(earlier).refilled(later) == b.refilled(later),
{
    if earlier > b.last_refill && later > earlier {
        let cap = b.capacity_per_second as int;
        let e1 = earlier - b.last_refill;
        let e2 = later - earlier;
        assert((e1 + e2) * cap == e1 * cap + e2 * cap) by (nonlinear_arith);
        assert(e1 * cap >= 0 && e2 * cap >= 0) by (nonlinear_arith)
            requires
                e1 >= 0,
                e2 >= 0,
                cap >= 0,
        ;
    }
}

/// A request given up while it waits leaves no trace. If the request made at
/// `earlier` was not granted, then at any later time the bucket is what it
/// would have been had the request never been made: nothing was taken, and
/// the fill is that of the time passed.
pub proof fn lemma_abandoned_wait(b: Bucket, bytes: u32, earlier: u64, later: u64)
    requires
        b.wf(),
        earlier <= later,
        b.after_request(bytes, earlier).1 == 0,
    ensures
        b.after_request(bytes, earlier).0.refilled(later) == b.refilled(later),
{
    lemma_refill_composes(b, earlier, later);
    if bytes <= b.max_burst && b.refilled(earlier).accumulated >= bytes {
        // Granted with nothing taken: a request for no bytes.
        assert(bytes == 0);
        assert(b.refilled(earlier).charged(bytes) == b.refilled(earlier));
    }
}

} // verus!
