//! A bound on how many provider calls are in flight at once.
//!
//! A call takes a permit before it starts and gives it back when it has ended. Where none is left
//! the caller waits; the waiting itself is the program's around the library.

use tokio::sync::Semaphore;
use vstd::prelude::*;

verus! {

/// `tokio::sync::Semaphore`, a number of permits.
#[verifier::external_type_specification]
#[verifier::external_body]
pub struct ExSemaphore(tokio::sync::Semaphore);

/// The permits that a semaphore has left.
pub uninterp spec fn free_permits(s: Semaphore) -> nat;

/// Whether a semaphore hands out permits: it has not been closed.
pub uninterp spec fn is_open(s: Semaphore) -> bool;

/// The most permits that a semaphore can hold: `tokio::sync::Semaphore::MAX_PERMITS`, an eighth of
/// the largest `usize`.
pub open spec fn max_permits() -> nat {
    (usize::MAX / 8) as nat
}

/// `Semaphore::new` is open and has so many permits. It panics above its maximum.
#[verifier::external_body]
fn semaphore(permits: usize) -> (s: Semaphore)
    requires
        permits <= max_permits(),
    ensures
        free_permits(s) == permits,
        is_open(s),
{
    Semaphore::new(permits)
}

/// `Semaphore::try_acquire` takes a permit if there is one left, and `SemaphorePermit::forget`
/// keeps it taken. The semaphore is borrowed mutably, so nobody else waits for it.
#[verifier::external_body]
fn take_permit(s: &mut Semaphore) -> (taken: bool)
    requires
        is_open(*old(s)),
    ensures
        is_open(*final(s)),
        taken == (free_permits(*old(s)) > 0),
        free_permits(*final(s)) == if taken {
            (free_permits(*old(s)) - 1) as nat
        } else {
            free_permits(*old(s))
        },
{
    s.try_acquire().map(|permit| permit.forget()).is_ok()
}

/// `Semaphore::add_permits` gives a permit back. It panics above its maximum. The semaphore is
/// borrowed mutably, so nobody else waits for it.
#[verifier::external_body]
fn give_permit(s: &mut Semaphore)
    requires
        is_open(*old(s)),
        free_permits(*old(s)) < max_permits(),
    ensures
        is_open(*final(s)),
        free_permits(*final(s)) == free_permits(*old(s)) + 1,
{
    s.add_permits(1);
}

/// `Semaphore::available_permits` is the number of permits left.
#[verifier::external_body]
fn count_permits(s: &Semaphore) -> (n: usize)
    ensures
        n == free_permits(*s),
{
    s.available_permits()
}

/// How many permits there are, and how many are left.
pub struct LimiterView {
    pub free: nat,
    pub max: nat,
}

/// Bounds how many calls are in flight.
#[derive(Debug)]
pub struct ConcurrencyLimiter {
    semaphore: Semaphore,
    max: usize,
}

impl View for ConcurrencyLimiter {
    type V = LimiterView;

    closed spec fn view(&self) -> LimiterView {
        LimiterView { free: free_permits(self.semaphore), max: self.max as nat }
    }
}

/// The greater of a number and one.
pub open spec fn at_least_one(n: nat) -> nat {
    if n >= 1 {
        n
    } else {
        1
    }
}

impl LimiterView {
    /// There is at least one permit, and no more are left than there are.
    pub open spec fn wf(self) -> bool {
        1 <= self.max <= max_permits() && self.free <= self.max
    }

    /// How many calls are in flight.
    pub open spec fn in_flight(self) -> nat {
        (self.max - self.free) as nat
    }

    /// The limiter after a call has asked for a permit: it has one, if one was left.
    pub open spec fn asked(self) -> LimiterView {
        if self.free > 0 {
            LimiterView { free: (self.free - 1) as nat, ..self }
        } else {
            self
        }
    }

    /// The limiter after a call has given its permit back.
    pub open spec fn released(self) -> LimiterView {
        LimiterView { free: self.free + 1, ..self }
    }
}

impl ConcurrencyLimiter {
    /// The numbers are in order, and the semaphore hands out permits.
    pub open spec fn wf(&self) -> bool {
        self@.wf() && self.open()
    }

    /// The semaphore hands out permits.
    pub closed spec fn open(&self) -> bool {
        is_open(self.semaphore)
    }

    /// A limiter for so many calls, and at least for one.
    pub fn new(max_concurrent: usize) -> (l: ConcurrencyLimiter)
        requires
            max_concurrent <= max_permits(),
        ensures
            l.wf(),
            l@ == (LimiterView {
                free: at_least_one(max_concurrent as nat),
                max: at_least_one(max_concurrent as nat),
            }),
    {
        let max: usize = if max_concurrent >= 1 {
            max_concurrent
        } else {
            1
        };
        ConcurrencyLimiter { semaphore: semaphore(max), max }
    }

    /// Takes a permit, if one is left.
    pub fn try_acquire(&mut self) -> (taken: bool)
        requires
            old(self).wf(),
        ensures
            final(self).wf(),
            taken == (old(self)@.free > 0),
            final(self)@ == old(self)@.asked(),
    {
        take_permit(&mut self.semaphore)
    }

    /// Gives a permit back.
    pub fn release(&mut self)
        requires
            old(self).wf(),
            old(self)@.in_flight() > 0,
        ensures
            final(self).wf(),
            final(self)@ == old(self)@.released(),
    {
        give_permit(&mut self.semaphore);
    }

    /// How many permits are left.
    pub fn available(&self) -> (n: usize)
        ensures
            n == self@.free,
    {
        count_permits(&self.semaphore)
    }

    /// How many calls may be in flight.
    pub fn max(&self) -> (n: usize)
        ensures
            n == self@.max,
    {
        self.max
    }

    /// How many calls are in flight.
    pub fn in_flight(&self) -> (n: usize)
        requires
            self.wf(),
        ensures
            n == self@.in_flight(),
    {
        let free: usize = count_permits(&self.semaphore);
        self.max - free
    }
}

/// A call that starts or ends.
pub enum CallEvent {
    Start,
    End,
}

/// The limiter after a run of calls that start and end. A call that finds no permit waits: it is not
/// in flight. One can end only while some are in flight.
pub open spec fn after_events(l: LimiterView, events: Seq<CallEvent>) -> LimiterView
    decreases events.len(),
{
    if events.len() == 0 {
        l
    } else {
        let before = after_events(l, events.drop_last());
        match events.last() {
            CallEvent::Start => before.asked(),
            CallEvent::End => if before.in_flight() > 0 {
                before.released()
            } else {
                before
            },
        }
    }
}

/// However calls start and end, no more are in flight than the limit, and every permit is either
/// left or held by a call in flight.
pub proof fn law_calls_in_flight_are_bounded(l: LimiterView, events: Seq<CallEvent>)
    requires
        l.wf(),
    ensures
        after_events(l, events).wf(),
        after_events(l, events).max == l.max,
        after_events(l, events).in_flight() <= l.max,
        after_events(l, events).in_flight() + after_events(l, events).free == l.max,
    decreases events.len(),
{
    if events.len() > 0 {
        law_calls_in_flight_are_bounded(l, events.drop_last());
    }
}

/// A permit that is given back can be taken again: a call that ends leaves the limiter as it was
/// before the call started.
pub proof fn law_release_undoes_acquire(l: LimiterView)
    requires
        l.wf(),
        l.free > 0,
    ensures
        l.asked().released() == l,
{
}

/// A call that asks while a permit is left takes exactly one, and one that asks while none is left takes
/// none; a call that ends gives exactly one back. How many there are in all does not change.
pub proof fn law_one_permit_for_each_call(l: LimiterView)
    requires
        l.wf(),
    ensures
        l.free > 0 ==> l.asked().free + 1 == l.free && l.asked().in_flight() == l.in_flight() + 1,
        l.free == 0 ==> l.asked() == l && l.in_flight() == l.max,
        l.asked().max == l.max,
        l.released().free == l.free + 1,
        l.released().max == l.max,
        l.in_flight() + l.free == l.max,
{
}

/// A limiter is for as many calls as it was made for, and at least for one.
pub proof fn law_there_is_always_a_permit(n: nat)
    ensures
        n >= 1 ==> at_least_one(n) == n,
        at_least_one(0) == 1,
{
}

} // verus!
