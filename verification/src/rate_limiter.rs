//! Rate limits by tier.
//!
//! Every client has a tier, whose capacity is the number of requests per second that it may make
//! and also the size of its bursts. A client that was never registered gets the default tier with
//! its first request. A client has a limiter for each quota that it is held to: that of its own
//! tier, and those of tiers that callers name explicitly.

use crate::text::{
    decimal, decimal_text, first_index, lemma_decimal_digits, lemma_decimal_injective,
    lemma_first_index_unique,
};
use vstd::hash_map::StringHashMap;
use vstd::prelude::*;
use vstd::string::*;

verus! {

/// Why a request is refused.
#[derive(Debug, PartialEq, Eq)]
pub enum RateLimitError {
    LimitExceeded,
    UnknownTier(String),
}

impl RateLimitError {
    /// The text of the error.
    pub fn message(&self) -> (s: String)
        ensures
            s@ == match self {
                RateLimitError::LimitExceeded => "Rate limit exceeded"@,
                RateLimitError::UnknownTier(name) => "Unknown tier: "@ + name@,
            },
    {
        match self {
            RateLimitError::LimitExceeded => "Rate limit exceeded".to_string(),
            RateLimitError::UnknownTier(name) => {
                let mut s = "Unknown tier: ".to_string();
                s.append(name.as_str());
                s
            },
        }
    }
}

/// A named rate-limit tier.
#[derive(Debug, Clone, Copy, PartialEq, Eq)]
pub struct TierConfig {
    pub name: &'static str,
    /// Requests per second, and the size of a burst.
    pub capacity: u32,
}

/// A tier by its contents.
pub struct TierView {
    pub name: Seq<char>,
    pub capacity: u32,
}

impl View for TierConfig {
    type V = TierView;

    open spec fn view(&self) -> TierView {
        TierView { name: self.name@, capacity: self.capacity }
    }
}

/// The tier `free`.
pub open spec fn free_tier() -> TierView {
    TierView { name: "free"@, capacity: 10 }
}

/// The tier `pro`.
pub open spec fn pro_tier() -> TierView {
    TierView { name: "pro"@, capacity: 100 }
}

/// The tier `enterprise`.
pub open spec fn enterprise_tier() -> TierView {
    TierView { name: "enterprise"@, capacity: 1000 }
}

impl TierConfig {
    /// Ten requests per second.
    pub fn free() -> (t: TierConfig)
        ensures
            t@ == free_tier(),
    {
        TierConfig { name: "free", capacity: 10 }
    }

    /// A hundred requests per second.
    pub fn pro() -> (t: TierConfig)
        ensures
            t@ == pro_tier(),
    {
        TierConfig { name: "pro", capacity: 100 }
    }

    /// A thousand requests per second.
    pub fn enterprise() -> (t: TierConfig)
        ensures
            t@ == enterprise_tier(),
    {
        TierConfig { name: "enterprise", capacity: 1000 }
    }
}

/// What is reported of a registered client.
#[derive(Debug, Clone, Copy)]
pub struct ClientStatus {
    pub tier_name: &'static str,
    pub capacity_rps: u32,
}

/// A limiter of the `governor` crate that admits so many requests per second.
#[verifier::external_body]
pub struct Throttle {
    inner: governor::DefaultDirectRateLimiter,
}

/// How many requests per second a limiter was made to admit.
pub uninterp spec fn throttle_quota(t: Throttle) -> nat;

/// Whether a limiter has not admitted a request yet.
pub uninterp spec fn throttle_fresh(t: Throttle) -> bool;

/// The time that a limiter has stored, in nanoseconds since it was made: up to when the requests
/// that it has admitted use up its quota. Zero where it has admitted none.
pub uninterp spec fn throttle_tat(t: Throttle) -> nat;

/// Nanoseconds in a second. A limiter counts the interval between two requests in whole nanoseconds,
/// so at a greater quota the interval is nothing.
pub const NANOS_PER_SECOND: u32 = 1_000_000_000;

/// `governor::RateLimiter::direct` on `Quota::per_second` makes a limiter with that quota, which
/// has not admitted a request yet.
#[verifier::external_body]
fn throttle(n: u32) -> (t: Throttle)
    requires
        n >= 1,
    ensures
        throttle_quota(t) == n,
        throttle_fresh(t),
        throttle_tat(t) == 0,
{
    let quota = governor::Quota::per_second(std::num::NonZeroU32::new(n).unwrap());
    Throttle { inner: governor::RateLimiter::direct(quota) }
}

/// The interval between two requests at a quota, in whole nanoseconds.
pub open spec fn interval(quota: nat) -> nat {
    NANOS_PER_SECOND as nat / quota
}

/// How far ahead of the clock the stored time of a limiter may be when it admits a request.
pub open spec fn burst(quota: nat) -> nat {
    if interval(quota) >= 1 {
        interval(quota) * quota
    } else {
        quota
    }
}

/// `governor::RateLimiter::check` asks the limiter for one request. Whether it is admitted depends
/// on the clock. A limiter that has admitted none admits, and so does one whose stored time is no
/// further than the burst, whatever its clock says. One that admits moves its stored time on by the
/// interval between two requests at least; one that refuses stores nothing. Beyond the burst nothing
/// is said of which requests are admitted: that rests on the readings of its clock, which the clock
/// does not promise to be in order.
#[verifier::external_body]
fn pass(t: &mut Throttle) -> (r: bool)
    ensures
        throttle_quota(*final(t)) == throttle_quota(*old(t)),
        throttle_fresh(*old(t)) ==> r,
        r && throttle_quota(*old(t)) <= NANOS_PER_SECOND ==> !throttle_fresh(*final(t)),
        throttle_tat(*old(t)) <= burst(throttle_quota(*old(t))) ==> r,
        r ==> throttle_tat(*final(t)) >= throttle_tat(*old(t)) + interval(
            throttle_quota(*old(t)),
        ),
        !r ==> throttle_tat(*final(t)) == throttle_tat(*old(t)),
        !r ==> throttle_fresh(*final(t)) == throttle_fresh(*old(t)),
{
    t.inner.check().is_ok()
}

/// What is known of a limiter.
pub struct LimiterView {
    /// Whether it has not admitted a request yet.
    pub fresh: bool,
    /// The time that it has stored.
    pub tat: nat,
}

/// The quota of a tier: its capacity, and at least one request per second.
pub open spec fn quota_of(t: TierView) -> nat {
    if t.capacity >= 1 {
        t.capacity as nat
    } else {
        1
    }
}

/// What a rate limiter holds.
pub struct RateLimiterView {
    /// The tier of each registered client.
    pub tiers: Map<Seq<char>, TierView>,
    /// The limiters that there are, by client and quota.
    pub limiters: Map<(Seq<char>, nat), LimiterView>,
    /// The tier of a client that was never registered.
    pub default_tier: TierView,
}

impl RateLimiterView {
    /// Every registered client has a limiter of its tier's quota.
    pub open spec fn wf(self) -> bool {
        forall|c: Seq<char>| #[trigger]
            self.tiers.dom().contains(c) ==> self.limiters.dom().contains(
                (c, quota_of(self.tiers[c])),
            )
    }

    /// The client is registered at a tier, with a fresh limiter in place of any of that quota that it
    /// had.
    pub open spec fn registered(self, client: Seq<char>, tier: TierView) -> RateLimiterView {
        RateLimiterView {
            tiers: self.tiers.insert(client, tier),
            limiters: self.limiters.insert(
                (client, quota_of(tier)),
                LimiterView { fresh: true, tat: 0 },
            ),
            ..self
        }
    }

    /// Whether the client has a limiter of the tier's quota.
    pub open spec fn has_limiter(self, client: Seq<char>, tier: TierView) -> bool {
        self.limiters.dom().contains((client, quota_of(tier)))
    }

    /// The client's limiter of the tier's quota: a fresh one, where it has none.
    pub open spec fn limiter(self, client: Seq<char>, tier: TierView) -> LimiterView {
        if self.has_limiter(client, tier) {
            self.limiters[(client, quota_of(tier))]
        } else {
            LimiterView { fresh: true, tat: 0 }
        }
    }

    /// The state after the client's limiter of the tier's quota was asked, which left it as given.
    /// Nothing else has changed.
    pub open spec fn asked(
        self,
        client: Seq<char>,
        tier: TierView,
        left: LimiterView,
    ) -> RateLimiterView {
        RateLimiterView {
            limiters: self.limiters.insert((client, quota_of(tier)), left),
            ..self
        }
    }

    /// The client's next request at the tier is admitted whatever the clock says: its limiter has not
    /// admitted one yet.
    pub open spec fn first_request(self, client: Seq<char>, tier: TierView) -> bool {
        self.limiter(client, tier).fresh
    }

    /// The stored time of the client's limiter of the tier's quota is no further than the burst.
    pub open spec fn within_burst(self, client: Seq<char>, tier: TierView) -> bool {
        self.limiter(client, tier).tat <= burst(quota_of(tier))
    }

    /// The client's limiter of the tier's quota has admitted a request between this state and the
    /// next: its stored time has moved on.
    pub open spec fn let_through(
        self,
        after: RateLimiterView,
        client: Seq<char>,
        tier: TierView,
    ) -> bool {
        after.limiter(client, tier).tat > self.limiter(client, tier).tat
    }

    /// Whether the answer to a request is the limiter's, which was asked between this state and the
    /// next: the first is admitted, and so is each within the burst; one that is admitted moves the
    /// stored time on by the interval at least; one that is refused changes nothing of the limiter.
    pub open spec fn answered(
        self,
        after: RateLimiterView,
        client: Seq<char>,
        tier: TierView,
        admitted: bool,
    ) -> bool {
        &&& after == self.asked(client, tier, after.limiter(client, tier))
        &&& self.first_request(client, tier) ==> admitted
        &&& self.within_burst(client, tier) ==> admitted
        &&& admitted ==> after.limiter(client, tier).tat >= self.limiter(client, tier).tat
            + interval(quota_of(tier))
        &&& quota_of(tier) <= NANOS_PER_SECOND ==> (admitted <==> self.let_through(
            after,
            client,
            tier,
        ))
        &&& !admitted ==> after.limiter(client, tier) == self.limiter(client, tier)
        &&& admitted && quota_of(tier) <= NANOS_PER_SECOND ==> !after.limiter(client, tier).fresh
    }

    /// The state in which a request of the client is judged: a client that is not registered is
    /// registered at the default tier first.
    pub open spec fn enrolled(self, client: Seq<char>) -> RateLimiterView {
        if self.tiers.dom().contains(client) {
            self
        } else {
            self.registered(client, self.default_tier)
        }
    }
}

/// A request that was judged, and the answer.
pub struct Judged {
    pub client: Seq<char>,
    pub tier: TierView,
    pub admitted: bool,
}

/// The states before, between and after requests that were judged one after the other.
pub open spec fn is_run(states: Seq<RateLimiterView>, run: Seq<Judged>) -> bool {
    &&& states.len() == run.len() + 1
    &&& forall|i: int|
        0 <= i < run.len() ==> (#[trigger] states[i]).answered(
            states[i + 1],
            run[i].client,
            run[i].tier,
            run[i].admitted,
        )
}

/// How many requests of a client at a quota were admitted.
pub open spec fn admitted_count(run: Seq<Judged>, client: Seq<char>, quota: nat) -> nat
    decreases run.len(),
{
    if run.len() == 0 {
        0
    } else {
        let before = admitted_count(run.drop_last(), client, quota);
        let last = run.last();
        if last.admitted && last.client == client && quota_of(last.tier) == quota {
            before + 1
        } else {
            before
        }
    }
}

/// The text under which a client's limiter of a quota is kept.
spec fn slot_key(client: Seq<char>, quota: nat) -> Seq<char> {
    decimal(quota).push(' ') + client
}

proof fn lemma_slot_key_injective(c1: Seq<char>, q1: nat, c2: Seq<char>, q2: nat)
    requires
        slot_key(c1, q1) == slot_key(c2, q2),
    ensures
        c1 == c2,
        q1 == q2,
{
    lemma_slot_key_parts(c1, q1);
    lemma_slot_key_parts(c2, q2);
    lemma_decimal_injective(q1, q2);
}

proof fn lemma_slot_key_parts(client: Seq<char>, quota: nat)
    ensures
        ({
            let s = slot_key(client, quota);
            let i = first_index(s, ' ');
            &&& decimal(quota) == s.take(i)
            &&& client == s.skip(i + 1)
        }),
{
    let s = slot_key(client, quota);
    let d = decimal(quota);
    lemma_decimal_digits(quota);
    assert forall|j: int| 0 <= j < d.len() implies s[j] != ' ' by {
        assert(s[j] == d[j]);
    }
    assert(s[d.len() as int] == ' ');
    lemma_first_index_unique(s, ' ', d.len() as int);
    assert(d == s.take(d.len() as int));
    assert(client == s.skip(d.len() as int + 1));
}

/// The limiters and tiers of all clients.
pub struct RateLimiter {
    slots: StringHashMap<usize>,
    throttles: Vec<Throttle>,
    tiers: StringHashMap<TierConfig>,
    default_tier: TierConfig,
}

impl View for RateLimiter {
    type V = RateLimiterView;

    closed spec fn view(&self) -> RateLimiterView {
        RateLimiterView {
            tiers: self.tiers@.map_values(|t: TierConfig| t@),
            limiters: Map::new(
                |k: (Seq<char>, nat)| self.slots@.dom().contains(slot_key(k.0, k.1)),
                |k: (Seq<char>, nat)| self.throttle_view(slot_key(k.0, k.1)),
            ),
            default_tier: self.default_tier@,
        }
    }
}

impl RateLimiter {
    spec fn throttle_view(&self, key: Seq<char>) -> LimiterView {
        let t = self.throttles@[self.slots@[key] as int];
        LimiterView { fresh: throttle_fresh(t), tat: throttle_tat(t) }
    }

    /// Every registered client has a limiter of its tier, and no limiter serves two.
    pub open spec fn wf(&self) -> bool {
        self@.wf() && self.own_slots()
    }

    /// Every limiter has a slot of its own, and the quota that it is kept under.
    pub closed spec fn own_slots(&self) -> bool {
        &&& forall|k: Seq<char>| #[trigger]
            self.slots@.dom().contains(k) ==> self.slots@[k] < self.throttles@.len()
        &&& forall|k: Seq<char>, l: Seq<char>|
            self.slots@.dom().contains(k) && self.slots@.dom().contains(l) && #[trigger]
            self.slots@[k] == #[trigger] self.slots@[l] ==> k == l
        &&& forall|c: Seq<char>, q: nat|
            self.slots@.dom().contains(#[trigger] slot_key(c, q)) ==> throttle_quota(
                self.throttles@[self.slots@[slot_key(c, q)] as int],
            ) == q
    }

    /// No client is registered; the default tier is `pro`.
    pub fn new() -> (rl: RateLimiter)
        ensures
            rl.wf(),
            rl@.tiers.is_empty(),
            rl@.limiters.is_empty(),
            rl@.default_tier == pro_tier(),
    {
        let rl = RateLimiter {
            slots: StringHashMap::new(),
            throttles: Vec::new(),
            tiers: StringHashMap::new(),
            default_tier: TierConfig::pro(),
        };
        assert(rl@.limiters == Map::<(Seq<char>, nat), LimiterView>::empty());
        rl
    }

    /// The same with another default tier.
    pub fn with_default_tier(self, tier: TierConfig) -> (rl: RateLimiter)
        requires
            self.wf(),
        ensures
            rl.wf(),
            rl@ == (RateLimiterView { default_tier: tier@, ..self@ }),
    {
        let rl = RateLimiter {
            slots: self.slots,
            throttles: self.throttles,
            tiers: self.tiers,
            default_tier: tier,
        };
        assert(rl@.limiters == self@.limiters);
        rl
    }

    /// Sets the tier of clients that were never registered.
    pub fn set_default_tier(&mut self, tier: TierConfig)
        requires
            old(self).wf(),
        ensures
            final(self).wf(),
            final(self)@ == (RateLimiterView { default_tier: tier@, ..old(self)@ }),
    {
        let ghost before = *self;
        self.default_tier = tier;
        assert(self@.limiters == before@.limiters);
    }

    fn quota(tier: TierConfig) -> (n: u32)
        ensures
            n == quota_of(tier@),
            n >= 1,
    {
        if tier.capacity >= 1 {
            tier.capacity
        } else {
            1
        }
    }

    fn slot_name(client_id: &str, tier: TierConfig) -> (s: String)
        ensures
            s@ == slot_key(client_id@, quota_of(tier@)),
    {
        let mut s = decimal_text(RateLimiter::quota(tier) as u128);
        s.push(' ');
        s.append(client_id);
        s
    }

    /// The limiter of a client and a quota has changed in its slot.
    proof fn lemma_update(self, before: RateLimiter, client: Seq<char>, quota: nat)
        requires
            before.own_slots(),
            before.slots@.dom().contains(slot_key(client, quota)),
            self.slots@ == before.slots@,
            self.tiers@ == before.tiers@,
            self.default_tier == before.default_tier,
            self.throttles@.len() == before.throttles@.len(),
            throttle_quota(self.throttles@[before.slots@[slot_key(client, quota)] as int]) == quota,
            forall|i: int|
                0 <= i < self.throttles@.len() && i != before.slots@[slot_key(client, quota)]
                    ==> #[trigger] self.throttles@[i] == before.throttles@[i],
        ensures
            self.own_slots(),
            self@ == (RateLimiterView {
                limiters: before@.limiters.insert(
                    (client, quota),
                    self.throttle_view(slot_key(client, quota)),
                ),
                ..before@
            }),
    {
        let key = slot_key(client, quota);
        assert forall|c: Seq<char>, q: nat| slot_key(c, q) == key implies c == client && q
            == quota by {
            lemma_slot_key_injective(c, q, client, quota);
        }
        assert forall|c: Seq<char>, q: nat|
            self.slots@.dom().contains(#[trigger] slot_key(c, q)) implies throttle_quota(
            self.throttles@[self.slots@[slot_key(c, q)] as int],
        ) == q by {
            if slot_key(c, q) != key {
                assert(before.slots@[slot_key(c, q)] != before.slots@[key]);
            }
        }
        assert forall|k: (Seq<char>, nat)|
            before@.limiters.dom().contains(k) && k != (client, quota) implies self.throttle_view(
            slot_key(k.0, k.1),
        ) == #[trigger] before@.limiters[k] by {
            assert(slot_key(k.0, k.1) != key);
            assert(before.slots@[slot_key(k.0, k.1)] != before.slots@[key]);
        }
        assert(self@.limiters == before@.limiters.insert(
            (client, quota),
            self.throttle_view(key),
        ));
    }

    /// A limiter is added for a client and a quota that had none.
    proof fn lemma_add(self, before: RateLimiter, client: Seq<char>, quota: nat, t: Throttle)
        requires
            before.own_slots(),
            !before.slots@.dom().contains(slot_key(client, quota)),
            before.throttles@.len() <= usize::MAX,
            self.slots@ == before.slots@.insert(
                slot_key(client, quota),
                before.throttles@.len() as usize,
            ),
            self.tiers@ == before.tiers@,
            self.default_tier == before.default_tier,
            self.throttles@ == before.throttles@.push(t),
            throttle_quota(t) == quota,
        ensures
            self.own_slots(),
            self@ == (RateLimiterView {
                limiters: before@.limiters.insert(
                    (client, quota),
                    LimiterView { fresh: throttle_fresh(t), tat: throttle_tat(t) },
                ),
                ..before@
            }),
    {
        let key = slot_key(client, quota);
        assert forall|c: Seq<char>, q: nat| slot_key(c, q) == key implies c == client && q
            == quota by {
            lemma_slot_key_injective(c, q, client, quota);
        }
        assert(self@.limiters == before@.limiters.insert(
            (client, quota),
            LimiterView { fresh: throttle_fresh(t), tat: throttle_tat(t) },
        ));
    }

    /// Gives the client a fresh limiter with the tier's quota, in place of any that it had.
    fn set_throttle(&mut self, client_id: &str, tier: TierConfig)
        requires
            old(self).own_slots(),
        ensures
            final(self).own_slots(),
            final(self).tiers == old(self).tiers,
            final(self).slots@.dom().contains(slot_key(client_id@, quota_of(tier@))),
            final(self)@ == old(self)@.asked(
                client_id@,
                tier@,
                LimiterView { fresh: true, tat: 0 },
            ),
    {
        let ghost before = *self;
        let ghost quota = quota_of(tier@);
        let t = throttle(RateLimiter::quota(tier));
        let key = RateLimiter::slot_name(client_id, tier);
        let slot = match self.slots.get(key.as_str()) {
            Some(i) => Some(*i),
            None => None,
        };
        match slot {
            Some(i) => {
                self.throttles.set(i, t);
                proof {
                    self.lemma_update(before, client_id@, quota);
                }
            },
            None => {
                let i: usize = self.throttles.len();
                self.throttles.push(t);
                self.slots.insert(key, i);
                proof {
                    self.lemma_add(before, client_id@, quota, t);
                }
            },
        }
    }

    /// Registers a client at a tier, or registers it anew: its limiter of that quota is replaced.
    pub fn register(&mut self, client_id: &str, tier: TierConfig)
        requires
            old(self).wf(),
        ensures
            final(self).wf(),
            final(self)@ == old(self)@.registered(client_id@, tier@),
    {
        self.set_throttle(client_id, tier);
        let ghost mid = *self;
        self.tiers.insert(client_id.to_string(), tier);
        assert(self@.tiers == mid@.tiers.insert(client_id@, tier@));
        assert(self@.limiters == mid@.limiters);
    }

    /// Whether the client may make a request now, by its own tier; a client that is not registered
    /// is registered at the default tier. A client's first request is always admitted.
    pub fn check(&mut self, client_id: &str) -> (r: Result<(), RateLimitError>)
        requires
            old(self).wf(),
        ensures
            final(self).wf(),
            r matches Err(e) ==> e == RateLimitError::LimitExceeded,
            ({
                let s = old(self)@.enrolled(client_id@);
                s.answered(final(self)@, client_id@, s.tiers[client_id@], r is Ok)
            }),
    {
        let tier = match self.tiers.get(client_id) {
            Some(t) => Some(*t),
            None => None,
        };
        let tier = match tier {
            Some(t) => t,
            None => {
                let t = self.default_tier;
                self.register(client_id, t);
                t
            },
        };
        self.check_limit(client_id, tier)
    }

    /// Whether the client may make a request now at an explicit tier, whatever its own: the limiter
    /// that is asked has that tier's quota. The client's registration stays as it is.
    pub fn check_limit(&mut self, client_id: &str, tier: TierConfig) -> (r: Result<
        (),
        RateLimitError,
    >)
        requires
            old(self).wf(),
        ensures
            final(self).wf(),
            r matches Err(e) ==> e == RateLimitError::LimitExceeded,
            old(self)@.answered(final(self)@, client_id@, tier@, r is Ok),
    {
        let ghost before = *self;
        let ghost quota = quota_of(tier@);
        let key = RateLimiter::slot_name(client_id, tier);
        if !self.slots.contains_key(key.as_str()) {
            self.set_throttle(client_id, tier);
        }
        let ghost mid = *self;
        assert(before@.has_limiter(client_id@, tier@) == before.slots@.dom().contains(key@));
        match self.slots.get(key.as_str()) {
            Some(i) => {
                let i: usize = *i;
                assert(mid@.limiters[(client_id@, quota)] == mid.throttle_view(key@));
                let passed = pass(&mut self.throttles[i]);
                proof {
                    self.lemma_update(mid, client_id@, quota);
                    let left = self.throttle_view(key@);
                    assert(self@.limiter(client_id@, tier@) == left);
                    assert(self@ == mid@.asked(client_id@, tier@, left));
                    assert(self@.limiters == before@.asked(client_id@, tier@, left).limiters);
                    if quota <= NANOS_PER_SECOND {
                        lemma_interval(quota);
                    }
                }
                verdict(passed)
            },
            None => Err(RateLimitError::LimitExceeded),
        }
    }

    /// The tier at which the client is registered, if it is.
    pub fn status(&self, client_id: &str) -> (r: Option<ClientStatus>)
        ensures
            r is Some <==> self@.tiers.dom().contains(client_id@),
            r matches Some(s) ==> (TierView { name: s.tier_name@, capacity: s.capacity_rps })
                == self@.tiers[client_id@],
    {
        match self.tiers.get(client_id) {
            Some(t) => Some(ClientStatus { tier_name: t.name, capacity_rps: t.capacity }),
            None => None,
        }
    }

    /// How many clients are registered.
    pub fn registered_count(&self) -> (n: usize)
        ensures
            n == self@.tiers.len(),
    {
        proof {
            assert(self@.tiers.dom() == self.tiers@.dom());
        }
        self.tiers.len()
    }
}

impl Default for RateLimiter {
    fn default() -> (rl: RateLimiter)
        ensures
            rl.wf(),
            rl@.tiers.is_empty(),
            rl@.limiters.is_empty(),
            rl@.default_tier == pro_tier(),
    {
        RateLimiter::new()
    }
}

/// At a quota of at most one request per nanosecond the interval is not empty.
proof fn lemma_interval(quota: nat)
    requires
        1 <= quota <= NANOS_PER_SECOND,
    ensures
        interval(quota) >= 1,
{
    assert(NANOS_PER_SECOND as nat / quota >= 1) by (nonlinear_arith)
        requires
            1 <= quota <= NANOS_PER_SECOND,
    ;
}

/// What is answered where the limiter has admitted a request, and where it has not.
pub fn verdict(passed: bool) -> (r: Result<(), RateLimitError>)
    ensures
        r == if passed {
            Ok::<(), RateLimitError>(())
        } else {
            Err::<(), RateLimitError>(RateLimitError::LimitExceeded)
        },
{
    if passed {
        Ok(())
    } else {
        Err(RateLimitError::LimitExceeded)
    }
}

/// A client that was never registered is registered at the default tier by its first request, and
/// that request is admitted.
pub proof fn law_newcomer_gets_the_default_tier(s: RateLimiterView, client: Seq<char>)
    requires
        !s.tiers.dom().contains(client),
    ensures
        s.enrolled(client).tiers[client] == s.default_tier,
        s.enrolled(client).has_limiter(client, s.default_tier),
        s.enrolled(client).first_request(client, s.default_tier),
{
}

/// A request never changes a tier, nor any limiter but the one that is asked: those of other clients,
/// and those of other quotas, stay as they are.
pub proof fn law_requests_keep_tiers_and_other_limiters(
    s: RateLimiterView,
    after: RateLimiterView,
    client: Seq<char>,
    tier: TierView,
    admitted: bool,
    other: Seq<char>,
    other_tier: TierView,
)
    requires
        s.answered(after, client, tier, admitted),
        client != other || quota_of(tier) != quota_of(other_tier),
    ensures
        after.tiers == s.tiers,
        after.default_tier == s.default_tier,
        after.limiter(other, other_tier) == s.limiter(other, other_tier),
{
}

/// An explicit tier is judged by a limiter of its own quota: however a client is registered, its
/// first request at a tier of another quota is admitted, and its registration is not touched.
pub proof fn law_explicit_tier_bypasses_the_registry(
    s: RateLimiterView,
    after: RateLimiterView,
    client: Seq<char>,
    registered: TierView,
    explicit: TierView,
    admitted: bool,
)
    requires
        quota_of(registered) != quota_of(explicit),
        !s.has_limiter(client, explicit),
        s.registered(client, registered).answered(after, client, explicit, admitted),
    ensures
        admitted,
        after.has_limiter(client, explicit),
        after.tiers[client] == registered,
        after.limiter(client, registered) == (LimiterView { fresh: true, tat: 0 }),
{
}

/// A client's requests of a tier use up its quota: each that is admitted, among whatever requests of
/// all clients, costs an interval, so no more are admitted than there are intervals in the distance
/// by which the stored time has moved.
pub proof fn law_admitted_requests_use_up_the_quota(
    states: Seq<RateLimiterView>,
    run: Seq<Judged>,
    client: Seq<char>,
    tier: TierView,
)
    requires
        is_run(states, run),
    ensures
        states.last().limiter(client, tier).tat >= states[0].limiter(client, tier).tat
            + admitted_count(run, client, quota_of(tier)) * interval(quota_of(tier)),
    decreases run.len(),
{
    let q = quota_of(tier);
    if run.len() > 0 {
        let n = run.len() - 1;
        let before = states.drop_last();
        assert(is_run(before, run.drop_last()));
        law_admitted_requests_use_up_the_quota(before, run.drop_last(), client, tier);
        assert(states[n].answered(states[n + 1], run[n].client, run[n].tier, run[n].admitted));
        if run[n].client != client || quota_of(run[n].tier) != q {
            law_requests_keep_tiers_and_other_limiters(
                states[n],
                states[n + 1],
                run[n].client,
                run[n].tier,
                run[n].admitted,
                client,
                tier,
            );
        }
        assert(before.last() == states[n] && states.last() == states[n + 1]);
        assert(before[0] == states[0]);
        if !run[n].admitted && run[n].client == client && quota_of(run[n].tier) == q {
            assert(states[n + 1].limiter(client, tier) == states[n].limiter(client, tier));
        }
        let k = admitted_count(run.drop_last(), client, q);
        assert((k + 1) * interval(q) == k * interval(q) + interval(q)) by (nonlinear_arith);
    } else {
        assert(admitted_count(run, client, q) * interval(q) == 0) by (nonlinear_arith)
            requires
                admitted_count(run, client, q) == 0,
        ;
    }
}

/// A client's requests of a tier are admitted, whatever the clock says, as long as its limiter's
/// stored time is within the burst: it is so while at most as many intervals have gone into it as the
/// quota has requests.
pub proof fn law_burst_is_admitted(
    s: RateLimiterView,
    after: RateLimiterView,
    client: Seq<char>,
    tier: TierView,
    admitted: bool,
)
    requires
        s.answered(after, client, tier, admitted),
        s.limiter(client, tier).tat <= quota_of(tier) * interval(quota_of(tier)),
    ensures
        admitted,
{
    let q = quota_of(tier);
    assert(q * interval(q) == interval(q) * q) by (nonlinear_arith);
    if interval(q) < 1 {
        assert(q * interval(q) == 0) by (nonlinear_arith)
            requires
                interval(q) == 0,
        ;
    }
}

/// Of several registrations of one client the last is in force.
pub proof fn law_last_registration_counts(
    s: RateLimiterView,
    client: Seq<char>,
    first: TierView,
    last: TierView,
)
    ensures
        s.registered(client, first).registered(client, last).tiers == s.registered(
            client,
            last,
        ).tiers,
        s.registered(client, first).registered(client, last).limiter(client, last)
            == s.registered(client, last).limiter(client, last),
{
    assert(s.registered(client, first).registered(client, last).tiers == s.registered(
        client,
        last,
    ).tiers);
}

/// The tiers: ten, a hundred and a thousand requests per second. A tier without capacity still admits one.
pub proof fn law_tiers_have_their_capacity(t: TierView)
    ensures
        free_tier().name == "free"@ && quota_of(free_tier()) == 10,
        pro_tier().name == "pro"@ && quota_of(pro_tier()) == 100,
        enterprise_tier().name == "enterprise"@ && quota_of(enterprise_tier()) == 1000,
        t.capacity == 0 ==> quota_of(t) == 1,
        t.capacity > 0 ==> quota_of(t) == t.capacity,
{
}

/// The requests of a quota take a second, but for what is lost where the interval is not a whole number
/// of nanoseconds.
pub proof fn law_intervals_share_a_second(quota: nat)
    requires
        quota >= 1,
    ensures
        interval(quota) * quota <= 1_000_000_000 < (interval(quota) + 1) * quota,
        quota <= 1_000_000_000 ==> burst(quota) == interval(quota) * quota,
        quota > 1_000_000_000 ==> burst(quota) == quota,
{
    let i = interval(quota);
    assert(i * quota <= 1_000_000_000 < (i + 1) * quota) by (nonlinear_arith)
        requires
            quota >= 1,
            i == 1_000_000_000nat / quota,
    ;
    if quota <= 1_000_000_000 {
        lemma_interval(quota);
    } else if i >= 1 {
        assert(i * quota > 1_000_000_000) by (nonlinear_arith)
            requires
                i >= 1,
                quota > 1_000_000_000,
        ;
    }
}

/// A registration gives the client the tier and a limiter that has admitted nothing; no other client's
/// tier, and no other limiter, is touched.
pub proof fn law_registrations_concern_one_client(
    s: RateLimiterView,
    client: Seq<char>,
    tier: TierView,
    other: Seq<char>,
    other_tier: TierView,
)
    ensures
        s.registered(client, tier).tiers.dom().contains(client),
        s.registered(client, tier).tiers[client] == tier,
        s.registered(client, tier).has_limiter(client, tier),
        s.registered(client, tier).limiter(client, tier).fresh,
        s.registered(client, tier).limiter(client, tier).tat == 0,
        s.registered(client, tier).default_tier == s.default_tier,
        other != client ==> s.registered(client, tier).tiers.dom().contains(other)
            == s.tiers.dom().contains(other) && s.registered(client, tier).tiers[other]
            == s.tiers[other],
        other != client || quota_of(other_tier) != quota_of(tier) ==> s.registered(
            client,
            tier,
        ).limiter(other, other_tier) == s.limiter(other, other_tier),
{
}

/// A client that is registered is judged as it is, by its own tier; one that is not, after it was
/// registered at the default tier.
pub proof fn law_registered_clients_are_not_enrolled_again(s: RateLimiterView, client: Seq<char>)
    ensures
        s.tiers.dom().contains(client) ==> s.enrolled(client) == s,
        !s.tiers.dom().contains(client) ==> s.enrolled(client) == s.registered(
            client,
            s.default_tier,
        ),
{
}

/// A limiter's answer changes that limiter alone: a first request is admitted, one that is admitted
/// moves the stored time on by an interval at least, and a refused one changes nothing.
pub proof fn law_answers_are_the_limiters(
    s: RateLimiterView,
    after: RateLimiterView,
    client: Seq<char>,
    tier: TierView,
    admitted: bool,
)
    requires
        s.answered(after, client, tier, admitted),
        1 <= quota_of(tier) <= 1_000_000_000,
    ensures
        s.limiter(client, tier).fresh ==> admitted,
        !s.has_limiter(client, tier) ==> admitted,
        admitted <==> after.limiter(client, tier).tat > s.limiter(client, tier).tat,
        admitted ==> after.limiter(client, tier).tat >= s.limiter(client, tier).tat + interval(
            quota_of(tier),
        ) && !after.limiter(client, tier).fresh,
        !admitted ==> after.limiter(client, tier) == s.limiter(client, tier),
        after.has_limiter(client, tier),
{
}

/// A tier is seen with its name and its capacity.
pub proof fn law_tiers_are_seen_whole(t: TierConfig)
    ensures
        t@.name == t.name@,
        t@.capacity == t.capacity,
{
}

} // verus!
