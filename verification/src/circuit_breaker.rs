//! A circuit breaker for each provider.
//!
//! Three failures in a row open a provider's circuit. While it is open no request goes to the
//! provider. Once the reset timeout has passed, exactly one trial request is let through; its
//! outcome closes the circuit, opens it again with a fresh timer, or, where it tells nothing of the
//! provider, leaves the trial to the next request.

use crate::clock::{Clock, age, elapsed_since, seconds};
use crate::provider::{Provider, provider_code};
use std::collections::HashMap;
use std::time::Instant;
use vstd::prelude::*;

verus! {

broadcast use vstd::std_specs::hash::group_hash_axioms;

/// Failures in a row that open a circuit.
pub const FAILURE_THRESHOLD: u32 = 3;

/// How long an open circuit blocks, in nanoseconds: one minute.
pub const RESET_TIMEOUT: u128 = 60_000_000_000;

/// The state of a provider's circuit.
#[derive(Debug, Clone, Copy, PartialEq, Eq, Structural)]
pub enum CircuitState {
    Closed,
    Open,
    HalfOpen,
}

/// What is known of one provider.
#[derive(Debug, Clone, Copy)]
pub struct ProviderState {
    pub state: CircuitState,
    /// Failures since the last success.
    pub failures: u32,
    pub last_failure_time: Option<u128>,
    /// When the circuit opened, unless it is closed.
    pub opened_at: Option<u128>,
    /// True while a half-open trial request is in flight.
    pub probe_in_flight: bool,
}

/// A provider with no failure since its last success.
pub open spec fn healthy() -> ProviderState {
    ProviderState {
        state: CircuitState::Closed,
        failures: 0,
        last_failure_time: None,
        opened_at: None,
        probe_in_flight: false,
    }
}

/// Whether the reset timeout of an open circuit has passed.
pub open spec fn expired(s: ProviderState, now: u128) -> bool {
    s.opened_at matches Some(t) && age(now, t) > RESET_TIMEOUT
}

/// Whether a request that asks at time `now` is held back.
pub open spec fn blocked(s: ProviderState, now: u128) -> bool {
    match s.state {
        CircuitState::Closed => false,
        CircuitState::HalfOpen => s.probe_in_flight,
        CircuitState::Open => !expired(s, now),
    }
}

/// The state after a request has asked at time `now`: an open circuit whose timeout has passed is
/// half open from then on, with the trial taken.
pub open spec fn asked(s: ProviderState, now: u128) -> ProviderState {
    if s.state is Open && expired(s, now) {
        probing(s)
    } else {
        s
    }
}

/// The state with the trial taken.
pub open spec fn probing(s: ProviderState) -> ProviderState {
    ProviderState { state: CircuitState::HalfOpen, probe_in_flight: true, ..s }
}

/// Whether a request is held back that has seen the timeout passed and claims the trial: another
/// has claimed it already.
pub open spec fn claim_blocked(s: ProviderState) -> bool {
    s.state is HalfOpen
}

/// The state after a request has claimed the trial.
pub open spec fn claimed(s: ProviderState) -> ProviderState {
    if s.state is Open {
        probing(s)
    } else {
        s
    }
}

/// The state after the trial has ended without telling whether the provider is well: the circuit is
/// open as it was before the trial, so that the next request is the next trial.
pub open spec fn released(s: ProviderState) -> ProviderState {
    if s.state is HalfOpen {
        ProviderState { state: CircuitState::Open, probe_in_flight: false, ..s }
    } else {
        s
    }
}

/// The state after a failure at time `now`.
pub open spec fn failed(s: ProviderState, now: u128) -> ProviderState {
    let failures = (s.failures + 1) as u32;
    let opens = s.state is HalfOpen || (s.state is Closed && failures >= FAILURE_THRESHOLD);
    ProviderState {
        state: if opens {
            CircuitState::Open
        } else {
            s.state
        },
        failures,
        last_failure_time: Some(now),
        opened_at: if opens {
            Some(now)
        } else {
            s.opened_at
        },
        probe_in_flight: s.probe_in_flight && !(s.state is HalfOpen),
    }
}

impl ProviderState {
    /// The circuit is closed exactly below the threshold, has an opening time exactly if it is not
    /// closed, and a trial is in flight exactly while it is half open.
    pub open spec fn wf(self) -> bool {
        &&& self.state is Closed <==> self.failures < FAILURE_THRESHOLD
        &&& self.state is Closed <==> self.opened_at is None
        &&& self.state is HalfOpen <==> self.probe_in_flight
        &&& self.failures == 0 <==> self.last_failure_time is None
    }
}

/// The circuits of all providers.
pub struct CircuitBreaker {
    providers: HashMap<u64, ProviderState>,
    clock: Clock,
}

impl View for CircuitBreaker {
    type V = Map<Provider, ProviderState>;

    /// The state of every provider; one that was never recorded is healthy.
    closed spec fn view(&self) -> Map<Provider, ProviderState> {
        Map::new(
            |p: Provider| true,
            |p: Provider|
                if self.providers@.dom().contains(provider_code(p)) {
                    self.providers@[provider_code(p)]
                } else {
                    healthy()
                },
        )
    }
}

impl CircuitBreaker {
    /// The clock on which the breaker counts time.
    pub closed spec fn clock(&self) -> Clock {
        self.clock
    }

    /// Every provider has a state, and every state is well formed.
    pub open spec fn wf(&self) -> bool {
        &&& forall|p: Provider| #[trigger] self@.dom().contains(p)
        &&& forall|p: Provider| (#[trigger] self@[p]).wf()
    }

    /// A breaker whose circuits are all closed.
    pub fn new() -> (breaker: CircuitBreaker)
        ensures
            breaker.wf(),
            forall|p: Provider| #[trigger] breaker@[p] == healthy(),
    {
        CircuitBreaker { providers: HashMap::new(), clock: Clock::start() }
    }

    fn entry(&self, provider: Provider) -> (s: ProviderState)
        ensures
            s == self@[provider],
    {
        match self.providers.get(&provider.code()) {
            Some(s) => *s,
            None => ProviderState {
                state: CircuitState::Closed,
                failures: 0,
                last_failure_time: None,
                opened_at: None,
                probe_in_flight: false,
            },
        }
    }

    fn put(&mut self, provider: Provider, s: ProviderState)
        ensures
            final(self)@ == old(self)@.insert(provider, s),
            final(self).clock() == old(self).clock(),
    {
        self.providers.insert(provider.code(), s);
        assert forall|p: Provider| provider_code(p) == provider_code(provider) implies p
            == provider by {}
        assert(self@ == old(self)@.insert(provider, s));
    }

    /// Whether a request that asks at time `now` is held back, as far as that can be told without
    /// changing anything; `None` if the timeout of an open circuit has passed and the trial is to
    /// be claimed.
    pub fn peek_at(&self, provider: Provider, now: u128) -> (r: Option<bool>)
        requires
            self.wf(),
        ensures
            r is None <==> self@[provider].state is Open && expired(self@[provider], now),
            r matches Some(b) ==> b == blocked(self@[provider], now),
    {
        let s = self.entry(provider);
        match s.state {
            CircuitState::Closed => Some(false),
            CircuitState::HalfOpen => Some(s.probe_in_flight),
            CircuitState::Open => {
                let over = match s.opened_at {
                    Some(t) => elapsed_since(now, t) > RESET_TIMEOUT,
                    None => false,
                };
                if over {
                    None
                } else {
                    Some(true)
                }
            },
        }
    }

    /// Claims the trial of a circuit that was found open with its timeout passed. Returns `false`
    /// to the one caller that turns the circuit half open. A caller that comes after that sees what
    /// the circuit has become: it is held back while the trial is in flight.
    pub fn claim_probe(&mut self, provider: Provider) -> (held_back: bool)
        requires
            old(self).wf(),
        ensures
            final(self).wf(),
            final(self).clock() == old(self).clock(),
            held_back == claim_blocked(old(self)@[provider]),
            final(self)@ == old(self)@.insert(provider, claimed(old(self)@[provider])),
    {
        let ghost before = self@;
        assert(before == before.insert(provider, before[provider]));
        let s = self.entry(provider);
        match s.state {
            CircuitState::Open => {
                let s = ProviderState {
                    state: CircuitState::HalfOpen,
                    failures: s.failures,
                    last_failure_time: s.last_failure_time,
                    opened_at: s.opened_at,
                    probe_in_flight: true,
                };
                self.put(provider, s);
                false
            },
            CircuitState::HalfOpen => s.probe_in_flight,
            CircuitState::Closed => false,
        }
    }

    /// Whether a request to the provider that asks at time `now` is held back. The one that asks
    /// first after the timeout is let through as the trial.
    pub fn is_open_at(&mut self, provider: Provider, now: u128) -> (r: bool)
        requires
            old(self).wf(),
        ensures
            final(self).wf(),
            final(self).clock() == old(self).clock(),
            r == blocked(old(self)@[provider], now),
            final(self)@ == old(self)@.insert(provider, asked(old(self)@[provider], now)),
    {
        let ghost before = self@;
        match self.peek_at(provider, now) {
            Some(r) => {
                assert(before == before.insert(provider, before[provider]));
                r
            },
            None => self.claim_probe(provider),
        }
    }

    /// Whether a request to the provider is held back now, by the breaker's clock.
    pub fn is_open(&mut self, provider: Provider) -> (r: bool)
        requires
            old(self).wf(),
        ensures
            final(self).wf(),
            final(self).clock() == old(self).clock(),
            exists|reading: Instant|
                {
                    let now = #[trigger] old(self).clock().time_at(reading);
                    &&& r == blocked(old(self)@[provider], now)
                    &&& final(self)@ == old(self)@.insert(
                        provider,
                        asked(old(self)@[provider], now),
                    )
                },
    {
        let now: u128 = self.clock.now();
        self.is_open_at(provider, now)
    }

    /// Records a request that succeeded: the provider is healthy, whatever its circuit was.
    pub fn record_success(&mut self, provider: Provider)
        requires
            old(self).wf(),
        ensures
            final(self).wf(),
            final(self).clock() == old(self).clock(),
            final(self)@ == old(self)@.insert(provider, healthy()),
    {
        let s = self.entry(provider);
        let closed = match s.state {
            CircuitState::Closed => true,
            _ => false,
        };
        let s = ProviderState {
            state: CircuitState::Closed,
            failures: 0,
            last_failure_time: None,
            opened_at: if closed {
                s.opened_at
            } else {
                None
            },
            probe_in_flight: s.probe_in_flight && closed,
        };
        self.put(provider, s);
    }

    /// Ends a trial whose answer, or the want of one, does not tell whether the provider is well. A
    /// circuit that is not half open stays as it is.
    pub fn release_probe(&mut self, provider: Provider)
        requires
            old(self).wf(),
        ensures
            final(self).wf(),
            final(self).clock() == old(self).clock(),
            final(self)@ == old(self)@.insert(provider, released(old(self)@[provider])),
    {
        let ghost before = self@;
        assert(before == before.insert(provider, before[provider]));
        let s = self.entry(provider);
        match s.state {
            CircuitState::HalfOpen => {
                let s = ProviderState {
                    state: CircuitState::Open,
                    failures: s.failures,
                    last_failure_time: s.last_failure_time,
                    opened_at: s.opened_at,
                    probe_in_flight: false,
                };
                self.put(provider, s);
            },
            _ => {},
        }
    }

    /// Records a request that failed (a server error, a timeout) at time `now`.
    pub fn record_failure_at(&mut self, provider: Provider, now: u128)
        requires
            old(self).wf(),
            old(self)@[provider].failures < u32::MAX,
        ensures
            final(self).wf(),
            final(self).clock() == old(self).clock(),
            final(self)@ == old(self)@.insert(provider, failed(old(self)@[provider], now)),
    {
        let s = self.entry(provider);
        let failures: u32 = s.failures + 1;
        let half_open = match s.state {
            CircuitState::HalfOpen => true,
            _ => false,
        };
        let closed = match s.state {
            CircuitState::Closed => true,
            _ => false,
        };
        let opens = half_open || (closed && failures >= FAILURE_THRESHOLD);
        let s = ProviderState {
            state: if opens {
                CircuitState::Open
            } else {
                s.state
            },
            failures,
            last_failure_time: Some(now),
            opened_at: if opens {
                Some(now)
            } else {
                s.opened_at
            },
            probe_in_flight: s.probe_in_flight && !half_open,
        };
        self.put(provider, s);
    }

    /// Records a request that failed just now, by the breaker's clock.
    pub fn record_failure(&mut self, provider: Provider)
        requires
            old(self).wf(),
            old(self)@[provider].failures < u32::MAX,
        ensures
            final(self).wf(),
            final(self).clock() == old(self).clock(),
            exists|reading: Instant|
                {
                    let now = #[trigger] old(self).clock().time_at(reading);
                    final(self)@ == old(self)@.insert(provider, failed(old(self)@[provider], now))
                },
    {
        let now: u128 = self.clock.now();
        self.record_failure_at(provider, now)
    }

    /// The time now on the breaker's own clock, on which requests and failures without a time of
    /// their own are counted too.
    pub fn now(&self) -> (n: u128)
        ensures
            exists|reading: Instant| n == #[trigger] self.clock().time_at(reading),
    {
        assert(self.clock() == self.clock);
        self.clock.now()
    }

    /// The state of the provider's circuit.
    pub fn state(&self, provider: Provider) -> (state: CircuitState)
        ensures
            state == self@[provider].state,
    {
        self.entry(provider).state
    }

    /// How often the provider has failed since its last success.
    pub fn failure_count(&self, provider: Provider) -> (n: u32)
        ensures
            n == self@[provider].failures,
    {
        self.entry(provider).failures
    }
}

impl Default for CircuitBreaker {
    fn default() -> (breaker: CircuitBreaker)
        ensures
            breaker.wf(),
            forall|p: Provider| #[trigger] breaker@[p] == healthy(),
    {
        CircuitBreaker::new()
    }
}

/// The state after failures at the given times.
pub open spec fn after_failures(s: ProviderState, times: Seq<u128>) -> ProviderState
    decreases times.len(),
{
    if times.len() == 0 {
        s
    } else {
        failed(after_failures(s, times.drop_last()), times.last())
    }
}

/// The state after requests that ask at the given times, none of which has reported an outcome.
pub open spec fn after_asking(s: ProviderState, times: Seq<u128>) -> ProviderState
    decreases times.len(),
{
    if times.len() == 0 {
        s
    } else {
        asked(after_asking(s, times.drop_last()), times.last())
    }
}

/// How many of the requests that ask at the given times are let through.
pub open spec fn let_through(s: ProviderState, times: Seq<u128>) -> nat
    decreases times.len(),
{
    if times.len() == 0 {
        0
    } else {
        let_through(s, times.drop_last()) + if blocked(
            after_asking(s, times.drop_last()),
            times.last(),
        ) {
            0nat
        } else {
            1nat
        }
    }
}

/// A circuit opens with the third failure in a row, not before, and later failures do not restart
/// its timer.
pub proof fn law_opens_at_the_threshold(times: Seq<u128>)
    requires
        times.len() <= u32::MAX,
    ensures
        after_failures(healthy(), times).wf(),
        after_failures(healthy(), times).failures == times.len(),
        times.len() < FAILURE_THRESHOLD ==> after_failures(healthy(), times).state is Closed,
        times.len() >= FAILURE_THRESHOLD ==> after_failures(healthy(), times).state is Open
            && after_failures(healthy(), times).opened_at == Some(times[FAILURE_THRESHOLD - 1]),
    decreases times.len(),
{
    if times.len() > 0 {
        law_opens_at_the_threshold(times.drop_last());
    }
}

/// An open circuit blocks every request until the reset timeout has passed, and lets one through
/// after it.
pub proof fn law_open_blocks_until_the_timeout(s: ProviderState, now: u128)
    requires
        s.wf(),
        s.state is Open,
    ensures
        blocked(s, now) <==> age(now, s.opened_at->0) <= seconds(60),
        blocked(s, now) ==> asked(s, now) == s,
        !blocked(s, now) ==> asked(s, now).state is HalfOpen,
{
}

/// However many requests ask, and whenever they do, a circuit that is not closed lets at most one
/// through before an outcome is reported, and none if a trial is already in flight.
pub proof fn law_one_trial_at_a_time(s: ProviderState, times: Seq<u128>)
    requires
        s.wf(),
        !(s.state is Closed),
    ensures
        let_through(s, times) <= 1,
        s.state is HalfOpen ==> let_through(s, times) == 0,
        let_through(s, times) == 1 <==> s.state is Open && after_asking(s, times).state is HalfOpen,
        let_through(s, times) == 0 ==> after_asking(s, times) == s,
        after_asking(s, times).wf(),
    decreases times.len(),
{
    if times.len() > 0 {
        law_one_trial_at_a_time(s, times.drop_last());
    }
}

/// Of any two requests that have both seen the timeout passed, only the one that claims the trial
/// first gets through; the other is held back, and changes nothing.
pub proof fn law_one_claim_gets_through(s: ProviderState)
    requires
        s.wf(),
        s.state is Open,
    ensures
        !claim_blocked(s),
        claim_blocked(claimed(s)),
        claimed(claimed(s)) == claimed(s),
        claimed(s).wf(),
{
}

/// A trial that has ended without a verdict leaves room for the next: the next request after the
/// timeout is let through, and only that one.
pub proof fn law_released_trial_can_be_taken_again(s: ProviderState, now: u128, later: u128)
    requires
        s.wf(),
        s.state is Open,
        !blocked(s, now),
    ensures
        released(asked(s, now)) == s,
        blocked(asked(s, now), later),
        later >= now ==> !blocked(released(asked(s, now)), later),
{
}

/// A trial that fails opens the circuit again with a timer that starts at the failure.
pub proof fn law_failed_trial_reopens(s: ProviderState, now: u128, later: u128)
    requires
        s.wf(),
        s.state is HalfOpen,
        s.failures < u32::MAX,
    ensures
        failed(s, now).wf(),
        failed(s, now).state is Open,
        blocked(failed(s, now), later) <==> age(later, now) <= seconds(60),
{
}

/// Every step keeps a state well formed.
pub proof fn law_steps_keep_states_well_formed(s: ProviderState, now: u128)
    requires
        s.wf(),
    ensures
        healthy().wf(),
        asked(s, now).wf(),
        released(s).wf(),
        s.failures < u32::MAX ==> failed(s, now).wf(),
{
}

/// The first and the second failure in a row leave a circuit closed, and the third opens it from its
/// own time on; a success in between starts the count anew.
pub proof fn law_three_failures_in_a_row_open(first: u128, second: u128, third: u128, now: u128)
    ensures
        ({
            let one = failed(healthy(), first);
            let two = failed(one, second);
            let three = failed(two, third);
            &&& !blocked(healthy(), now)
            &&& one.state is Closed && one.failures == 1 && !blocked(one, now)
            &&& two.state is Closed && two.failures == 2 && !blocked(two, now)
            &&& three.state is Open && three.failures == 3
            &&& third <= now <= third + 60_000_000_000 ==> blocked(three, now)
            &&& now > third + 60_000_000_000 ==> !blocked(three, now)
            &&& three.last_failure_time == Some(third)
        }),
{
}

/// A failure of an open circuit is counted, and neither closes it nor starts its minute anew.
pub proof fn law_failures_do_not_prolong_an_open_circuit(s: ProviderState, at: u128, now: u128)
    requires
        s.wf(),
        s.state is Open,
        s.failures < u32::MAX,
    ensures
        failed(s, at).state is Open,
        failed(s, at).failures == s.failures + 1,
        failed(s, at).opened_at == s.opened_at,
        failed(s, at).last_failure_time == Some(at),
        blocked(failed(s, at), now) == blocked(s, now),
{
}

/// To ask changes nothing of a circuit that is closed, half open, or open for no longer than a minute;
/// a trial takes one request, and keeps the count and the times.
pub proof fn law_asking_only_takes_the_trial(s: ProviderState, now: u128)
    requires
        s.wf(),
    ensures
        s.state is Closed ==> !blocked(s, now) && asked(s, now) == s,
        s.state is HalfOpen ==> blocked(s, now) && asked(s, now) == s,
        s.state is Open && !(now > s.opened_at->0 + 60_000_000_000) ==> blocked(s, now) && asked(
            s,
            now,
        ) == s,
        s.state is Open && now > s.opened_at->0 + 60_000_000_000 ==> {
            &&& !blocked(s, now)
            &&& asked(s, now).state is HalfOpen
            &&& asked(s, now).probe_in_flight
            &&& asked(s, now).failures == s.failures
            &&& asked(s, now).opened_at == s.opened_at
            &&& asked(s, now).last_failure_time == s.last_failure_time
            &&& asked(s, now) == claimed(s)
        },
{
}

/// Only a trial can be given up: a circuit that is not half open stays as it is, and one that is goes
/// back to being open since the same time.
pub proof fn law_giving_up_a_trial_reopens_as_before(s: ProviderState)
    requires
        s.wf(),
    ensures
        !(s.state is HalfOpen) ==> released(s) == s,
        s.state is HalfOpen ==> released(s).state is Open && released(s).opened_at == s.opened_at
            && released(s).failures == s.failures && released(s).last_failure_time
            == s.last_failure_time && !released(s).probe_in_flight,
{
}

} // verus!
