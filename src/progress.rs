use vstd::prelude::*;
use std::time::Instant;

verus! {

#[verifier::external_type_specification]
#[verifier::external_body]
pub struct ExInstant(Instant);

/// Least time between two redraws of a progress bar, in milliseconds.
pub const REDRAW_INTERVAL_MS: u64 = 500;

/// Relies on `Instant::now`: the current instant of the monotonic clock.
#[verifier::external_body]
fn instant_now() -> (r: Instant) {
    Instant::now()
}

/// Relies on `Instant::elapsed` and `Duration::as_millis`: whole milliseconds
/// since `start`, cut to 64 bits.
#[verifier::external_body]
fn millis_since(start: &Instant) -> (r: u64) {
    start.elapsed().as_millis() as u64
}

/// Progress of a long operation over a known number of items, redrawn at most
/// every `REDRAW_INTERVAL_MS` milliseconds. Times are milliseconds since the
/// tracker was made.
pub struct ProgressTracker {
    start_time: Instant,
    total_items: usize,
    current_item: usize,
    last_update_ms: u64,
}

impl ProgressTracker {
    pub closed spec fn total(&self) -> usize {
        self.total_items
    }

    pub closed spec fn current(&self) -> usize {
        self.current_item
    }

    pub closed spec fn last_update(&self) -> u64 {
        self.last_update_ms
    }

    /// A tracker over `total_items` items, none done yet, drawn at time zero.
    pub fn new(total_items: usize) -> (r: Self)
        ensures
            r.total() == total_items,
            r.current() == 0,
            r.last_update() == 0,
    {
        ProgressTracker { start_time: instant_now(), total_items, current_item: 0, last_update_ms: 0 }
    }

    /// Records `current_item` as done at time `now_ms`; returns whether a
    /// redraw is due, that is whether `REDRAW_INTERVAL_MS` have passed since
    /// the last one, and if so takes `now_ms` as the time of the last redraw.
    pub fn update_at(&mut self, current_item: usize, now_ms: u64) -> (redraw: bool)
        ensures
            final(self).total() == old(self).total(),
            final(self).current() == current_item,
            redraw == (now_ms >= old(self).last_update() && now_ms - old(self).last_update()
                >= REDRAW_INTERVAL_MS),
            redraw ==> final(self).last_update() == now_ms,
            !redraw ==> final(self).last_update() == old(self).last_update(),
    {
        self.current_item = current_item;
        if now_ms >= self.last_update_ms && now_ms - self.last_update_ms >= REDRAW_INTERVAL_MS {
            self.last_update_ms = now_ms;
            true
        } else {
            false
        }
    }

    /// Records `current_item` as done now; returns whether a redraw is due.
    pub fn update(&mut self, current_item: usize) -> (redraw: bool)
        ensures
            final(self).total() == old(self).total(),
            final(self).current() == current_item,
            redraw ==> final(self).last_update() >= old(self).last_update() + REDRAW_INTERVAL_MS,
            !redraw ==> final(self).last_update() == old(self).last_update(),
    {
        let now = millis_since(&self.start_time);
        self.update_at(current_item, now)
    }

    /// Takes `now_ms` as the time of the last redraw, whatever the interval;
    /// a time before the last redraw leaves it where it is.
    pub fn force_update_at(&mut self, now_ms: u64)
        ensures
            final(self).total() == old(self).total(),
            final(self).current() == old(self).current(),
            final(self).last_update() == if now_ms >= old(self).last_update() {
                now_ms
            } else {
                old(self).last_update()
            },
    {
        if now_ms >= self.last_update_ms {
            self.last_update_ms = now_ms;
        }
    }

    /// Takes now as the time of the last redraw, whatever the interval.
    pub fn force_update(&mut self)
        ensures
            final(self).total() == old(self).total(),
            final(self).current() == old(self).current(),
            final(self).last_update() >= old(self).last_update(),
    {
        let now = millis_since(&self.start_time);
        self.force_update_at(now)
    }

    /// Milliseconds since the tracker was made.
    pub fn elapsed_ms(&self) -> u64 {
        millis_since(&self.start_time)
    }

    /// Number of items to track.
    pub fn total_items(&self) -> (r: usize)
        ensures
            r == self.total(),
    {
        self.total_items
    }

    /// Number of items done.
    pub fn current_item(&self) -> (r: usize)
        ensures
            r == self.current(),
    {
        self.current_item
    }

    /// How many of `width` cells of a bar are filled: the done share of the
    /// items, rounded down, and never more than `width`. An empty total fills none.
    pub fn filled_cells(&self, width: usize) -> (r: usize)
        ensures
            self.total() == 0 ==> r == 0,
            self.total() > 0 && self.current() >= self.total() ==> r == width,
            self.total() > 0 && self.current() < self.total() ==> r == (self.current() as int
                * width as int) / (self.total() as int),
            r <= width,
    {
        if self.total_items == 0 {
            0
        } else if self.current_item >= self.total_items {
            width
        } else {
            let c = self.current_item as u128;
            let w = width as u128;
            let t = self.total_items as u128;
            proof {
                let (ci, wi, ti) = (c as int, w as int, t as int);
                assert(ci * wi <= ti * wi) by (nonlinear_arith)
                    requires
                        0 <= ci < ti,
                        0 <= wi,
                ;
                assert(ti * wi <= u64::MAX as int * u64::MAX as int) by (nonlinear_arith)
                    requires
                        0 <= ti <= u64::MAX as int,
                        0 <= wi <= u64::MAX as int,
                ;
                assert((ci * wi) / ti <= wi) by (nonlinear_arith)
                    requires
                        0 <= ci * wi <= ti * wi,
                        ti > 0,
                ;
            }
            let q = c * w / t;
            q as usize
        }
    }
}

} // verus!
